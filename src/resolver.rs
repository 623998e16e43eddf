//! Resolution of schemas into types, and registration of structs and enums in the object
//! database.
//!
//! A name is registered as an empty placeholder struct before its schema is resolved, so a
//! schema that refers back to itself, directly or through others, finds the placeholder and
//! stops there. Every resolution also carries a nesting budget that each registered object and
//! each array level spends one unit of.
use crate::database::{get_object, insert_object, object_entries, remove_object, ObjectDatabase};
use crate::errors::GeneratorError;
use crate::name_mapping::{
    last_or_empty, module_name_of, package_of, property_name_of, property_type_of, special_parts, struct_name_of,
    validated_name_path, NameMapping,
};
use crate::casing::pascal_of;
use crate::schema::{
    is_object_empty, get_base_path_to_ref, resolve_ref, resolve_schema, resolved, resolved_ref,
    schema_is_empty, ObjectSchema, SchemaOrRef, SchemaType, SchemaTypeSet, SpecDocument,
};
use crate::text::{concat, list_contains, copy_path, copy_text, is_prefix, is_suffix, split_on, str_eq, views, split, lemma_split_nonempty, replace};
use crate::types::{
    get_object_name, object_name_of, EnumDefinition, EnumValue, ModuleInfo, ObjectDefinition, PrimitiveDefinition,
    PropertyDefinition, StructDefinition, TypeDefinition,
};
use vstd::prelude::*;
use vstd::string::*;

verus! {

/// How many nested objects and array levels one resolution may go through.
pub const MAX_RESOLUTION_DEPTH: u64 = 64;

/// The key under which a name is registered, seen from a definition path.
pub open spec fn object_key(mapping: NameMapping, path: Seq<String>, name: Seq<char>) -> Seq<char> {
    struct_name_of(mapping, views(path), name)
}

/// Resolution only adds entries: every entry present before is still there, unchanged.
pub open spec fn db_extends(before: ObjectDatabase, after: ObjectDatabase) -> bool {
    object_entries(before).submap_of(object_entries(after))
}

/// The target-language name of a scalar schema type.
pub open spec fn scalar_type_name(t: SchemaType) -> Option<Seq<char>> {
    match t {
        SchemaType::Boolean => Some("bool"@),
        SchemaType::String => Some("String"@),
        SchemaType::Number => Some("f64"@),
        SchemaType::Integer => Some("i32"@),
        _ => None,
    }
}

/// The word that names a schema type.
pub open spec fn type_text(t: SchemaType) -> Seq<char> {
    match t {
        SchemaType::Boolean => "Boolean"@,
        SchemaType::Integer => "Integer"@,
        SchemaType::Number => "Number"@,
        SchemaType::String => "String"@,
        SchemaType::Array => "Array"@,
        SchemaType::Object => "Object"@,
        SchemaType::Null => "Null"@,
    }
}

/// The words of several schema types, run together.
pub open spec fn types_text(ts: Seq<SchemaType>) -> Seq<char>
    decreases ts.len(),
{
    if ts.len() == 0 {
        Seq::empty()
    } else {
        types_text(ts.drop_last()) + type_text(ts.last())
    }
}

/// No two properties share a name.
pub open spec fn unique_property_names(ps: Seq<PropertyDefinition>) -> bool {
    forall|i: int, j: int| 0 <= i < j < ps.len() ==> (#[trigger] ps[i]).name@ != (#[trigger] ps[j]).name@
}

/// No two enum values share a name.
pub open spec fn unique_value_names(vs: Seq<EnumValue>) -> bool {
    forall|i: int, j: int| 0 <= i < j < vs.len() ==> (#[trigger] vs[i]).name@ != (#[trigger] vs[j]).name@
}

pub open spec fn required_names(s: ObjectSchema) -> Seq<Seq<char>> {
    views(s.required@)
}

/// The scalar type name of a schema of one scalar type.
pub open spec fn scalar_schema_name(s: ObjectSchema) -> Option<Seq<char>> {
    match s.schema_type {
        Some(SchemaTypeSet::Single(t)) => scalar_type_name(t),
        _ => None,
    }
}

/// The type a schema resolves to without registering anything: a scalar, or a sequence of a
/// scalar item.
pub open spec fn simple_type_name(spec: SpecDocument, s: ObjectSchema) -> Option<Seq<char>> {
    match s.schema_type {
        Some(SchemaTypeSet::Single(SchemaType::Array)) => match s.items {
            Some(item) => match resolved(spec, *item) {
                Some(x) => match scalar_schema_name(x) {
                    Some(n) => Some("Vec<"@ + n + ">"@),
                    None => None,
                },
                None => None,
            },
            None => None,
        },
        Some(SchemaTypeSet::Single(t)) => scalar_type_name(t),
        _ => None,
    }
}

/// A non-empty schema of object type without `anyOf` or `oneOf`: it becomes a struct.
pub open spec fn struct_schema(s: ObjectSchema) -> bool {
    !schema_is_empty(s) && s.any_of@.len() == 0 && s.one_of@.len() == 0 && s.schema_type matches Some(
        SchemaTypeSet::Single(SchemaType::Object),
    )
}

/// A schema that `generate_object` turns into a struct or an enum without failing.
pub open spec fn object_builds(s: ObjectSchema) -> bool {
    struct_schema(s) || (!schema_is_empty(s) && s.any_of@.len() > 0 && branches_nameable(s.any_of@)) || (!schema_is_empty(
        s,
    ) && s.any_of@.len() == 0 && s.one_of@.len() > 0 && branches_nameable(s.one_of@))
}

/// The type name under which a registered object is referred to.
pub open spec fn object_type_name(mapping: NameMapping, o: ObjectDefinition) -> Seq<char> {
    validated_name_path(object_name_of(o), module_name_of(mapping, object_name_of(o))).0
}

/// The struct name a reference to `x` is known by: its title, or else the last segment of the
/// reference, under the reference's base path.
pub open spec fn ref_struct_name(mapping: NameMapping, p: Seq<char>, x: ObjectSchema) -> Seq<char> {
    struct_name_of(
        mapping,
        split_on(p, "/"@).drop_last(),
        match x.title {
            Some(t) => t@,
            None => split_on(p, "/"@).last(),
        },
    )
}

/// The key a reference to a flat struct `x` registers under: its title, or else its
/// reference name, mapped as a struct name under the reference's base path.
pub open spec fn ref_key(mapping: NameMapping, p: Seq<char>, x: ObjectSchema) -> Seq<char> {
    struct_name_of(
        mapping,
        split_on(p, "/"@).drop_last(),
        match x.title {
            Some(t) => t@,
            None => ref_struct_name(mapping, p, x),
        },
    )
}

/// The database gained at most the one key: nothing where it was there already, else an
/// entry under it.
pub open spec fn registers_one(before: ObjectDatabase, after: ObjectDatabase, key: Seq<char>) -> bool {
    if object_entries(before).contains_key(key) {
        object_entries(after) == object_entries(before)
    } else {
        object_entries(after).contains_key(key) && object_entries(after) == object_entries(before).insert(
            key,
            object_entries(after)[key],
        )
    }
}

/// The declared property is a reference to a flat struct.
pub open spec fn flat_ref_declared(spec: SpecDocument, d: (String, SchemaOrRef)) -> bool {
    d.1 matches SchemaOrRef::Ref(p) && resolved_ref(spec, p@) matches Some(x) && flat_struct(spec, x)
}

/// The property of a flat-struct reference has the type of the entry registered for it.
pub open spec fn flat_ref_typed(
    spec: SpecDocument,
    mapping: NameMapping,
    db: ObjectDatabase,
    d: (String, SchemaOrRef),
    p: PropertyDefinition,
) -> bool {
    registered(db, ref_key(mapping, d.1->Ref_0@, resolved_ref(spec, d.1->Ref_0@)->Some_0)) matches Some(o)
        && p.property_type@ == property_type_of(mapping, d.0@, object_case_type_name(mapping, o))
}

/// The property comes from a declared property, and where that is a flat-struct reference it
/// has the type of the entry registered for it.
pub open spec fn property_typed_in(
    spec: SpecDocument,
    mapping: NameMapping,
    db: ObjectDatabase,
    schema: ObjectSchema,
    p: PropertyDefinition,
) -> bool {
    exists|j: int| 0 <= j < schema.properties@.len() && property_built_from(spec, mapping, #[trigger] schema.properties@[j], p, true)
        && (flat_ref_declared(spec, schema.properties@[j]) ==> flat_ref_typed(spec, mapping, db, schema.properties@[j], p))
}

proof fn lemma_typed_kept(
    spec: SpecDocument,
    mapping: NameMapping,
    db1: ObjectDatabase,
    db2: ObjectDatabase,
    schema: ObjectSchema,
    p: PropertyDefinition,
)
    requires
        property_typed_in(spec, mapping, db1, schema, p),
        db_extends(db1, db2),
    ensures
        property_typed_in(spec, mapping, db2, schema, p),
{
    let j = choose|j: int| 0 <= j < schema.properties@.len() && property_built_from(spec, mapping, #[trigger] schema.properties@[j], p, true)
        && (flat_ref_declared(spec, schema.properties@[j]) ==> flat_ref_typed(spec, mapping, db1, schema.properties@[j], p));
    if flat_ref_declared(spec, schema.properties@[j]) {
        let d = schema.properties@[j];
        let key = ref_key(mapping, d.1->Ref_0@, resolved_ref(spec, d.1->Ref_0@)->Some_0);
        assert(object_entries(db1).dom().contains(key));
        assert(object_entries(db2).dom().contains(key));
    }
}

/// The keys that the flat-struct references among the declared properties register under.
pub open spec fn flat_ref_keys(spec: SpecDocument, mapping: NameMapping, ds: Seq<(String, SchemaOrRef)>) -> Set<Seq<char>> {
    Set::new(
        |k: Seq<char>|
            exists|j: int|
                0 <= j < ds.len() && flat_ref_declared(spec, #[trigger] ds[j]) && k == ref_key(
                    mapping,
                    ds[j].1->Ref_0@,
                    resolved_ref(spec, ds[j].1->Ref_0@)->Some_0,
                ),
    )
}

/// A struct schema whose declared properties all resolve to a scalar or a sequence of a
/// scalar: building it registers nothing else.
pub open spec fn flat_struct(spec: SpecDocument, x: ObjectSchema) -> bool {
    struct_schema(x) && forall|j: int| 0 <= j < x.properties@.len() ==> simple_declared(spec, #[trigger] x.properties@[j])
}

/// The declared property's schema resolves to a scalar or a sequence of a scalar.
pub open spec fn simple_declared(spec: SpecDocument, d: (String, SchemaOrRef)) -> bool {
    resolved(spec, d.1) matches Some(y) && simple_type_name(spec, y) is Some
}

/// The type refers to the registered object: by its name and module, or, for the untyped
/// objects `object` and `dict`, as a dynamic value.
pub open spec fn refers_to(mapping: NameMapping, td: TypeDefinition, o: ObjectDefinition) -> bool {
    ((object_name_of(o) == "object"@ || object_name_of(o) == "dict"@) && td.name@ == "serde_json::Value"@ && td.module is None)
        || (td.name@ == object_type_name(mapping, o) && td.module is Some)
}

/// The type name of a registered object, as the object case of type resolution gives it: a
/// dynamic value for the untyped objects `object` and `dict`, else the object's type name.
pub open spec fn object_case_type_name(mapping: NameMapping, o: ObjectDefinition) -> Seq<char> {
    if object_name_of(o) == "object"@ || object_name_of(o) == "dict"@ {
        "serde_json::Value"@
    } else {
        object_type_name(mapping, o)
    }
}

/// The name a schema with `anyOf` or `oneOf` registers under: its title as a struct name, or
/// else the name the caller supplies.
pub open spec fn union_variable_name(
    mapping: NameMapping,
    path: Seq<String>,
    schema: ObjectSchema,
    fallback: Option<&str>,
) -> Seq<char> {
    match schema.title {
        Some(t) => struct_name_of(mapping, views(path), t@),
        None => fallback->Some_0@,
    }
}

/// Resolving under the type set needs no registration and gives an error or a scalar: the
/// database stays as it was.
pub open spec fn resolves_without_registering(st: SchemaTypeSet, schema: ObjectSchema, fallback: Option<&str>) -> bool {
    match st {
        SchemaTypeSet::Multiple(_) => true,
        SchemaTypeSet::Single(t) => !is_named(schema, fallback) || (t != SchemaType::Array && t != SchemaType::Object) || (t
            == SchemaType::Array && schema.items is None),
    }
}

/// The name a schema registers under: its title, or else the name the caller supplies.
pub open spec fn variable_name(schema: ObjectSchema, fallback: Option<&str>) -> Seq<char> {
    match schema.title {
        Some(t) => t@,
        None => fallback->Some_0@,
    }
}

/// A schema-or-reference that resolves to a type: a resolvable reference, or a schema, whose
/// type is a scalar, a sequence of a scalar, or a struct.
pub open spec fn type_resolves(spec: SpecDocument, b: SchemaOrRef) -> bool {
    resolved(spec, b) matches Some(s) && (simple_type_name(spec, s) is Some || struct_schema(s))
}

/// A schema has a name to register under: a title, or one that the caller supplies.
pub open spec fn is_named(schema: ObjectSchema, fallback: Option<&str>) -> bool {
    schema.title is Some || fallback is Some
}

pub fn oas3_type_to_string(oas3_type: &SchemaType) -> (r: String)
    ensures
        r@ == type_text(*oas3_type),
{
    match oas3_type {
        SchemaType::Boolean => "Boolean".to_owned(),
        SchemaType::Integer => "Integer".to_owned(),
        SchemaType::Number => "Number".to_owned(),
        SchemaType::String => "String".to_owned(),
        SchemaType::Array => "Array".to_owned(),
        SchemaType::Object => "Object".to_owned(),
        SchemaType::Null => "Null".to_owned(),
    }
}

fn serde_modules() -> (r: Vec<ModuleInfo>) {
    vec![
        ModuleInfo { name: "Serialize".to_owned(), path: "serde".to_owned() },
        ModuleInfo { name: "Deserialize".to_owned(), path: "serde".to_owned() },
    ]
}

/// The path, name, description and example under which a schema-or-reference is known: a
/// reference takes its target's title or its own last segment, under the target's path; a
/// schema in place takes its title or its type's word.
pub fn get_object_or_ref_struct_name(
    spec: &SpecDocument,
    definition_path: &Vec<String>,
    name_mapping: &NameMapping,
    object_or_reference: &SchemaOrRef,
) -> (r: Result<(Vec<String>, String, Option<String>, Option<String>), GeneratorError>)
    ensures
        match *object_or_reference {
            SchemaOrRef::Ref(p) => match resolved_ref(*spec, p@) {
                None => r is Err,
                Some(s) => r matches Ok(t) && t.2 == s.description && t.3 == s.example && views(t.0@) == split_on(
                    p@,
                    "/"@,
                ).drop_last()
                    && t.1@ == struct_name_of(
                    *name_mapping,
                    views(t.0@),
                    match s.title {
                        Some(x) => x@,
                        None => split_on(p@, "/"@).last(),
                    },
                ),
            },
            SchemaOrRef::Object(b) => match b.title {
                Some(x) => r matches Ok(t) && t.0@ == definition_path@ && t.1@ == struct_name_of(
                    *name_mapping,
                    views(definition_path@),
                    x@,
                ),
                None => match b.schema_type {
                    Some(SchemaTypeSet::Single(ty)) => r matches Ok(t) && t.0@ == definition_path@
                        && t.1@ == struct_name_of(*name_mapping, views(definition_path@), type_text(ty)),
                    Some(SchemaTypeSet::Multiple(ts)) => r matches Ok(t) && t.0@ == definition_path@
                        && t.1@ == struct_name_of(*name_mapping, views(definition_path@), types_text(ts@)),
                    None => r matches Err(e) && e is CodeGenerationError,
                },
            },
        },
        r matches Ok(t) ==> match *object_or_reference {
            SchemaOrRef::Object(b) => t.2 == b.description && t.3 == b.example,
            SchemaOrRef::Ref(_) => true,
        },
{
    let object_schema: &ObjectSchema = match object_or_reference {
        SchemaOrRef::Ref(ref_path) => {
            let ref_definition_path = get_base_path_to_ref(ref_path.as_str())?;
            let target = match resolve_ref(spec, ref_path.as_str()) {
                Ok(t) => t,
                Err(e) => {
                    return Err(GeneratorError::ResolveError(concat("Failed to resolve object ", e.message().as_str())));
                },
            };
            proof {
                reveal_strlit("/");
                lemma_split_nonempty(ref_path@, "/"@, Seq::empty());
            }
            let name = match &target.title {
                Some(title) => name_mapping.name_to_struct_name(&ref_definition_path, title.as_str()),
                None => {
                    let segments = split(ref_path.as_str(), "/");
                    name_mapping.name_to_struct_name(
                        &ref_definition_path,
                        segments[segments.len() - 1].as_str(),
                    )
                },
            };
            return Ok(
                (ref_definition_path, name, copy_text(&target.description), copy_text(&target.example)),
            );
        },
        SchemaOrRef::Object(b) => &**b,
    };
    if let Some(title) = &object_schema.title {
        return Ok(
            (
                copy_path(definition_path),
                name_mapping.name_to_struct_name(definition_path, title.as_str()),
                copy_text(&object_schema.description),
                copy_text(&object_schema.example),
            ),
        );
    }
    match &object_schema.schema_type {
        Some(schema_type) => {
            let type_word = match schema_type {
                SchemaTypeSet::Single(t) => oas3_type_to_string(t),
                SchemaTypeSet::Multiple(ts) => {
                    let mut out = String::new();
                    let mut i: usize = 0;
                    while i < ts.len()
                        invariant
                            i <= ts@.len(),
                            out@ == types_text(ts@.take(i as int)),
                        decreases ts@.len() - i,
                    {
                        assert(ts@.take(i + 1).drop_last() =~= ts@.take(i as int));
                        let w = oas3_type_to_string(&ts[i]);
                        out.append(w.as_str());
                        i = i + 1;
                    }
                    assert(ts@.take(ts@.len() as int) =~= ts@);
                    out
                },
            };
            Ok(
                (
                    copy_path(definition_path),
                    name_mapping.name_to_struct_name(definition_path, type_word.as_str()),
                    copy_text(&object_schema.description),
                    copy_text(&object_schema.example),
                ),
            )
        },
        None => Err(
            GeneratorError::CodeGenerationError(String::new(), ": Unable to determine object name".to_owned()),
        ),
    }
}


proof fn lemma_extends_trans(a: ObjectDatabase, b: ObjectDatabase, c: ObjectDatabase)
    requires
        db_extends(a, b),
        db_extends(b, c),
    ensures
        db_extends(a, c),
{
    vstd::map_lib::lemma_submap_of_trans(object_entries(a), object_entries(b), object_entries(c));
}

proof fn lemma_extends_remove(a: ObjectDatabase, b: ObjectDatabase, c: ObjectDatabase, key: Seq<char>)
    requires
        db_extends(a, b),
        !object_entries(a).contains_key(key),
        object_entries(c) == object_entries(b).remove(key),
    ensures
        db_extends(a, c),
{
    assert forall|k| #[trigger] object_entries(a).dom().contains(k) implies #[trigger] object_entries(
        c,
    ).dom().contains(k) && object_entries(a)[k] == object_entries(c)[k] by {
        assert(object_entries(b).dom().contains(k));
    }
}

/// The entry registered under a key, if any.
pub open spec fn registered(db: ObjectDatabase, key: Seq<char>) -> Option<ObjectDefinition> {
    if object_entries(db).contains_key(key) {
        Some(object_entries(db)[key])
    } else {
        None
    }
}

/// Adds a property, replacing one of the same name.
pub(crate) fn put_property(properties: &mut Vec<PropertyDefinition>, property: PropertyDefinition)
    requires
        unique_property_names(old(properties)@),
    ensures
        unique_property_names(final(properties)@),
        final(properties)@.len() <= old(properties)@.len() + 1,
        forall|k: int| 0 <= k < final(properties)@.len() ==> (#[trigger] final(properties)@[k]) == property
            || old(properties)@.contains(final(properties)@[k]),
        exists|k: int| 0 <= k < final(properties)@.len() && (#[trigger] final(properties)@[k]).name@ == property.name@,
        forall|k: int| 0 <= k < old(properties)@.len() ==> exists|k2: int| 0 <= k2 < final(properties)@.len()
            && (#[trigger] final(properties)@[k2]).name@ == (#[trigger] old(properties)@[k]).name@,
{
    let mut i: usize = 0;
    while i < properties.len()
        invariant
            properties@ == old(properties)@,
            unique_property_names(old(properties)@),
            i <= properties@.len(),
            forall|j: int| 0 <= j < i ==> (#[trigger] properties@[j]).name@ != property.name@,
        decreases properties@.len() - i,
    {
        if properties[i].name == property.name {
            let ghost before = properties@;
            properties.set(i, property);
            assert forall|a: int, b: int| 0 <= a < b < properties@.len() implies (#[trigger] properties@[a]).name@
                != (#[trigger] properties@[b]).name@ by {
                if a == i {
                    assert(before[b].name@ != before[a].name@);
                } else if b != i {
                    assert(before[b].name@ != before[a].name@);
                }
            }
            assert forall|k: int| 0 <= k < properties@.len() implies (#[trigger] properties@[k]) == property
                || old(properties)@.contains(properties@[k]) by {
                if k != i {
                    assert(properties@[k] == before[k]);
                }
            }
            assert(properties@[i as int] == property);
            assert forall|k: int| 0 <= k < before.len() implies exists|k2: int| 0 <= k2 < properties@.len()
                && (#[trigger] properties@[k2]).name@ == (#[trigger] before[k]).name@ by {
                if k == i as int {
                    assert(properties@[i as int].name@ == before[k].name@);
                } else {
                    assert(properties@[k] == before[k]);
                }
            }
            return;
        }
        i = i + 1;
    }
    let ghost before = properties@;
    properties.push(property);
    assert forall|k: int| 0 <= k < properties@.len() implies (#[trigger] properties@[k]) == property
        || old(properties)@.contains(properties@[k]) by {
        if k < before.len() {
            assert(properties@[k] == before[k]);
        }
    }
    assert(properties@[before.len() as int] == property);
    assert forall|k: int| 0 <= k < before.len() implies exists|k2: int| 0 <= k2 < properties@.len()
        && (#[trigger] properties@[k2]).name@ == (#[trigger] before[k]).name@ by {
        assert(properties@[k] == before[k]);
    }
}

/// Adds an enum value, replacing one of the same name.
#[verifier::rlimit(40)]
fn put_value(values: &mut Vec<EnumValue>, value: EnumValue)
    requires
        unique_value_names(old(values)@),
    ensures
        unique_value_names(final(values)@),
        final(values)@.len() <= old(values)@.len() + 1,
        exists|k: int| 0 <= k < final(values)@.len() && (#[trigger] final(values)@[k]).name@ == value.name@,
        forall|k: int| 0 <= k < old(values)@.len() ==> exists|k2: int| 0 <= k2 < final(values)@.len()
            && (#[trigger] final(values)@[k2]).name@ == (#[trigger] old(values)@[k]).name@,
        forall|k: int| 0 <= k < final(values)@.len() ==> (#[trigger] final(values)@[k]).name@ == value.name@
            || exists|k2: int| 0 <= k2 < old(values)@.len() && (#[trigger] old(values)@[k2]).name@ == final(values)@[k].name@,
        forall|k: int| 0 <= k < final(values)@.len() ==> (#[trigger] final(values)@[k]) == value || old(values)@.contains(
            final(values)@[k],
        ),
{
    let mut i: usize = 0;
    while i < values.len()
        invariant
            values@ == old(values)@,
            unique_value_names(old(values)@),
            i <= values@.len(),
            forall|j: int| 0 <= j < i ==> (#[trigger] values@[j]).name@ != value.name@,
        decreases values@.len() - i,
    {
        if values[i].name == value.name {
            let ghost before = values@;
            values.set(i, value);
            assert forall|a: int, b: int| 0 <= a < b < values@.len() implies (#[trigger] values@[a]).name@
                != (#[trigger] values@[b]).name@ by {
                if a == i {
                    assert(before[b].name@ != before[a].name@);
                } else if b != i {
                    assert(before[b].name@ != before[a].name@);
                }
            }
            assert(values@[i as int] == value);
            assert forall|k: int| 0 <= k < before.len() implies exists|k2: int| 0 <= k2 < values@.len()
                && (#[trigger] values@[k2]).name@ == (#[trigger] before[k]).name@ by {
                if k == i as int {
                    assert(values@[i as int].name@ == before[k].name@);
                } else {
                    assert(values@[k] == before[k]);
                }
            }
            assert forall|k: int| 0 <= k < values@.len() implies (#[trigger] values@[k]).name@ == value.name@
                || exists|k2: int| 0 <= k2 < before.len() && (#[trigger] before[k2]).name@ == values@[k].name@ by {
                if k != i as int {
                    assert(values@[k] == before[k]);
                }
            }
            assert forall|k: int| 0 <= k < values@.len() implies (#[trigger] values@[k]) == value || before.contains(
                values@[k],
            ) by {
                if k != i as int {
                    assert(values@[k] == before[k]);
                }
            }
            return;
        }
        i = i + 1;
    }
    let ghost before = values@;
    values.push(value);
    assert(values@[before.len() as int] == value);
    assert forall|k: int| 0 <= k < before.len() implies exists|k2: int| 0 <= k2 < values@.len()
        && (#[trigger] values@[k2]).name@ == (#[trigger] before[k]).name@ by {
        assert(values@[k] == before[k]);
    }
    assert forall|k: int| 0 <= k < values@.len() implies (#[trigger] values@[k]).name@ == value.name@
        || exists|k2: int| 0 <= k2 < before.len() && (#[trigger] before[k2]).name@ == values@[k].name@ by {
        if k < before.len() {
            assert(values@[k] == before[k]);
        }
    }
    assert forall|k: int| 0 <= k < values@.len() implies (#[trigger] values@[k]) == value || before.contains(values@[k]) by {
        if k < before.len() {
            assert(values@[k] == before[k]);
        }
    }
}

/// The type that refers to a registered object: its name and the module it is imported from.
fn object_type_definition(
    object_definition: &ObjectDefinition,
    name_mapping: &NameMapping,
    description: Option<String>,
) -> (r: TypeDefinition)
    ensures
        r.module is Some,
        r.name@ == object_type_name(*name_mapping, *object_definition),
        r.description == description,
{
    proof {
        reveal_strlit(".");
    }
    let object_name = get_object_name(object_definition);
    let object_path = name_mapping.name_to_module_name(object_name.as_str());
    let (object_name, object_path) = name_mapping.validate_object_name_path(
        object_name.as_str(),
        object_path.as_str(),
    );
    let import_path = concat("crate::", replace(object_path.as_str(), ".", "::").as_str());
    TypeDefinition {
        module: Some(ModuleInfo::new(import_path.as_str(), object_name.as_str())),
        name: object_name,
        description,
        example: None,
    }
}

/// Looks a name up in the object database, or registers it.
///
/// An existing entry, placeholder or not, is returned as it stands. Otherwise an empty
/// placeholder struct is registered under the name, the schema is resolved, and the result
/// replaces the placeholder; where resolution fails the placeholder is taken out again. An
/// empty schema is rejected before anything is registered.
pub fn get_or_create_object(
    spec: &SpecDocument,
    object_database: &mut ObjectDatabase,
    definition_path: Vec<String>,
    name: &str,
    property_ref: &ObjectSchema,
    name_mapping: &NameMapping,
    depth: u64,
) -> (r: Result<ObjectDefinition, GeneratorError>)
    ensures
        db_extends(*old(object_database), *final(object_database)),
        registered(*old(object_database), object_key(*name_mapping, definition_path@, name@)) matches Some(o)
            ==> r == Ok::<ObjectDefinition, GeneratorError>(o) && object_entries(*final(object_database))
            == object_entries(*old(object_database)),
        registered(*old(object_database), object_key(*name_mapping, definition_path@, name@)) is None
            && schema_is_empty(*property_ref) ==> (r matches Err(e) && e is InvalidValueError)
            && object_entries(*final(object_database)) == object_entries(*old(object_database)),
        r matches Ok(o) ==> registered(*final(object_database), object_key(*name_mapping, definition_path@, name@))
            == Some(o),
        r is Err && registered(*old(object_database), object_key(*name_mapping, definition_path@, name@)) is None
            ==> registered(*final(object_database), object_key(*name_mapping, definition_path@, name@)) is None,
        object_builds(*property_ref) && depth > 0 ==> r is Ok,
        registered(*old(object_database), object_key(*name_mapping, definition_path@, name@)) is None && flat_struct(
            *spec,
            *property_ref,
        ) && depth > 1 ==> (r matches Ok(o) && object_entries(*final(object_database)) == object_entries(
            *old(object_database),
        ).insert(object_key(*name_mapping, definition_path@, name@), o)),
    decreases depth, 13int,
{
    let struct_name = name_mapping.name_to_struct_name(&definition_path, name);
    if let Some(existing) = get_object(object_database, &struct_name) {
        return Ok(existing);
    }
    if is_object_empty(property_ref) {
        return Err(GeneratorError::InvalidValueError("Object is empty".to_owned()));
    }
    if depth == 0 {
        return Err(GeneratorError::UnsupportedError(concat("Nesting this deep at ", struct_name.as_str())));
    }
    let package_name = name_mapping.extract_package_name(struct_name.as_str());
    let short_name = name_mapping.extract_struct_name(struct_name.as_str());
    let placeholder = ObjectDefinition::Struct(
        StructDefinition {
            package: package_name,
            used_modules: Vec::new(),
            name: short_name,
            properties: Vec::new(),
            local_objects: Vec::new(),
            description: copy_text(&property_ref.description),
        },
    );
    let ghost before = *object_database;
    insert_object(object_database, struct_name.clone(), placeholder);
    let ghost with_placeholder = *object_database;
    assert(db_extends(before, with_placeholder));
    match generate_object(
        spec,
        object_database,
        definition_path,
        struct_name.as_str(),
        property_ref,
        name_mapping,
        depth - 1,
    ) {
        Ok(created) => {
            let ghost resolved_db = *object_database;
            proof {
                lemma_extends_trans(before, with_placeholder, resolved_db);
            }
            insert_object(object_database, struct_name.clone(), created);
            assert(db_extends(before, *object_database));
            match get_object(object_database, &struct_name) {
                Some(o) => Ok(o),
                None => Err(GeneratorError::ResolveError(struct_name)),
            }
        },
        Err(err) => {
            let ghost resolved_db = *object_database;
            proof {
                lemma_extends_trans(before, with_placeholder, resolved_db);
            }
            remove_object(object_database, &struct_name);
            proof {
                lemma_extends_remove(before, resolved_db, *object_database, struct_name@);
            }
            Err(err)
        },
    }
}

/// Builds the definition of a named schema: an enum for `anyOf` or `oneOf`, a struct for an
/// object type, and otherwise a type alias of the resolved type.
pub fn generate_object(
    spec: &SpecDocument,
    object_database: &mut ObjectDatabase,
    definition_path: Vec<String>,
    name: &str,
    object_schema: &ObjectSchema,
    name_mapping: &NameMapping,
    depth: u64,
) -> (r: Result<ObjectDefinition, GeneratorError>)
    ensures
        db_extends(*old(object_database), *final(object_database)),
        schema_is_empty(*object_schema) ==> (r matches Err(e) && e is InvalidValueError)
            && object_entries(*final(object_database)) == object_entries(*old(object_database)),
        !schema_is_empty(*object_schema) && (object_schema.any_of@.len() > 0 || object_schema.one_of@.len() > 0)
            ==> (r matches Ok(o) ==> o is Enum),
        !schema_is_empty(*object_schema) && object_schema.any_of@.len() == 0 && object_schema.one_of@.len() == 0
            ==> match object_schema.schema_type {
            Some(SchemaTypeSet::Multiple(_)) => r matches Err(e) && e is UnsupportedError,
            Some(SchemaTypeSet::Single(SchemaType::Object)) => r matches Ok(o) ==> o is Struct,
            _ => r matches Ok(o) ==> o matches ObjectDefinition::Primitive(p) && p.name@ == name@,
        },
        flat_struct(*spec, *object_schema) && depth > 0 ==> object_entries(*final(object_database)) == object_entries(
            *old(object_database),
        ),
        struct_schema(*object_schema) ==> (r matches Ok(o) && o matches ObjectDefinition::Struct(st) && st.name@ == pascal_of(
            last_or_empty(special_parts(object_key(*name_mapping, definition_path@, name@))),
        ) && st.package@ == package_of(object_key(*name_mapping, definition_path@, name@)) && forall|k: int|
            0 <= k < st.properties@.len() ==> property_from_declared(
            *spec,
            *name_mapping,
            *object_schema,
            #[trigger] st.properties@[k],
            depth > 0,
        )),
        !schema_is_empty(*object_schema) && object_schema.any_of@.len() > 0 ==> (r matches Ok(o) ==> o matches ObjectDefinition::Enum(
            e,
        ) && e.name@ == object_key(*name_mapping, definition_path@, name@) && enum_built_from(
            *spec,
            *name_mapping,
            enum_path(*name_mapping, definition_path@, name@),
            object_schema.any_of@,
            e.values@,
            depth > 0,
        )),
        !schema_is_empty(*object_schema) && object_schema.any_of@.len() == 0 && object_schema.one_of@.len() > 0 ==> (r matches Ok(
            o,
        ) ==> o matches ObjectDefinition::Enum(e) && e.name@ == object_key(*name_mapping, definition_path@, name@)
            && enum_built_from(
            *spec,
            *name_mapping,
            enum_path(*name_mapping, definition_path@, name@),
            object_schema.one_of@,
            e.values@,
            depth > 0,
        )),
        !schema_is_empty(*object_schema) && object_schema.any_of@.len() == 0 && object_schema.one_of@.len() == 0 && depth > 0
            ==> (simple_type_name(*spec, *object_schema) matches Some(n) ==> (r matches Ok(o) && o matches ObjectDefinition::Primitive(
            p,
        ) && p.name@ == name@ && p.primitive_type.name@ == n)),
        !schema_is_empty(*object_schema) && object_schema.any_of@.len() > 0 && branches_nameable(object_schema.any_of@)
            ==> (r matches Ok(o) && o is Enum),
        !schema_is_empty(*object_schema) && object_schema.any_of@.len() == 0 && object_schema.one_of@.len() > 0
            && branches_nameable(object_schema.one_of@) ==> (r matches Ok(o) && o is Enum),
        !schema_is_empty(*object_schema) && object_schema.any_of@.len() == 0 && object_schema.one_of@.len() == 0
            ==> (scalar_schema_name(*object_schema) matches Some(n) ==> (r matches Ok(o) && o matches ObjectDefinition::Primitive(
            p,
        ) && p.name@ == name@ && p.primitive_type.name@ == n)),
    decreases depth, 20int,
{
    if is_object_empty(object_schema) {
        return Err(GeneratorError::InvalidValueError("Object is empty".to_owned()));
    }
    if object_schema.any_of.len() > 0 {
        return generate_enum_from_any(
            spec,
            object_database,
            definition_path,
            name,
            object_schema,
            name_mapping,
            depth,
        );
    }
    if object_schema.one_of.len() > 0 {
        return generate_enum_from_one_of(
            spec,
            object_database,
            definition_path,
            name,
            object_schema,
            name_mapping,
            depth,
        );
    }
    match &object_schema.schema_type {
        Some(SchemaTypeSet::Multiple(_)) => Err(GeneratorError::UnsupportedError("Multiple types".to_owned())),
        Some(SchemaTypeSet::Single(SchemaType::Object)) => generate_struct(
            spec,
            object_database,
            definition_path,
            name,
            object_schema,
            name_mapping,
            depth,
        ),
        _ => match get_type_from_schema(
            spec,
            object_database,
            definition_path,
            object_schema,
            Some(name),
            name_mapping,
            depth,
        ) {
            Ok(type_definition) => Ok(
                ObjectDefinition::Primitive(
                    PrimitiveDefinition {
                        name: name.to_owned(),
                        description: copy_text(&type_definition.description),
                        primitive_type: type_definition,
                    },
                ),
            ),
            Err(err) => Err(err),
        },
    }
}

/// Every branch given in place has a title or a type to name its variant after.
pub open spec fn branches_nameable(branches: Seq<SchemaOrRef>) -> bool {
    forall|i: int| 0 <= i < branches.len() ==> branch_nameable(#[trigger] branches[i])
}

/// A branch is a reference, or a schema with a title or a type.
pub open spec fn branch_nameable(b: SchemaOrRef) -> bool {
    match b {
        SchemaOrRef::Object(x) => x.title is Some || x.schema_type is Some,
        SchemaOrRef::Ref(_) => true,
    }
}

/// The definition path under which an enum's in-place branches are named.
pub open spec fn enum_path(mapping: NameMapping, path: Seq<String>, name: Seq<char>) -> Seq<Seq<char>> {
    views(path).push(object_key(mapping, path, name))
}

/// The variant name of a branch: the name of its type with `Value` added, under the path of
/// the schema a reference points to, or under the enum's path for a branch in place.
pub open spec fn branch_variant_name(
    spec: SpecDocument,
    mapping: NameMapping,
    enum_path: Seq<Seq<char>>,
    b: SchemaOrRef,
) -> Option<Seq<char>> {
    match b {
        SchemaOrRef::Ref(p) => match resolved_ref(spec, p@) {
            Some(s) => {
                let base = split_on(p@, "/"@).drop_last();
                let word = struct_name_of(
                    mapping,
                    base,
                    match s.title {
                        Some(x) => x@,
                        None => split_on(p@, "/"@).last(),
                    },
                );
                Some(struct_name_of(mapping, base, word + "Value"@))
            },
            None => None,
        },
        SchemaOrRef::Object(x) => match x.title {
            Some(t) => Some(struct_name_of(mapping, enum_path, struct_name_of(mapping, enum_path, t@) + "Value"@)),
            None => match x.schema_type {
                Some(SchemaTypeSet::Single(ty)) => Some(
                    struct_name_of(mapping, enum_path, struct_name_of(mapping, enum_path, type_text(ty)) + "Value"@),
                ),
                Some(SchemaTypeSet::Multiple(ts)) => Some(
                    struct_name_of(mapping, enum_path, struct_name_of(mapping, enum_path, types_text(ts@)) + "Value"@),
                ),
                None => None,
            },
        },
    }
}

/// A branch whose type is known to fail: it does not resolve, or its schema has several
/// types, the null type, or is an array without items.
pub open spec fn branch_fails(spec: SpecDocument, b: SchemaOrRef) -> bool {
    match resolved(spec, b) {
        None => true,
        Some(s) => match s.schema_type {
            Some(SchemaTypeSet::Multiple(_)) => true,
            Some(SchemaTypeSet::Single(SchemaType::Null)) => true,
            Some(SchemaTypeSet::Single(SchemaType::Array)) => s.items is None,
            _ => false,
        },
    }
}

/// The variant comes from the branch: it is named after it, the branch does not fail, and
/// where the branch is a scalar or a sequence of a scalar the variant holds that type.
pub open spec fn variant_from(
    spec: SpecDocument,
    mapping: NameMapping,
    ep: Seq<Seq<char>>,
    b: SchemaOrRef,
    v: EnumValue,
    complete: bool,
) -> bool {
    &&& branch_variant_name(spec, mapping, ep, b) == Some(v.name@)
    &&& !branch_fails(spec, b)
    &&& complete ==> match resolved(spec, b) {
        Some(s) => match simple_type_name(spec, s) {
            Some(n) => v.value_type.name@ == n,
            None => true,
        },
        None => true,
    }
}

/// The variant comes from one of the branches.
pub open spec fn from_some_branch(
    spec: SpecDocument,
    mapping: NameMapping,
    ep: Seq<Seq<char>>,
    branches: Seq<SchemaOrRef>,
    v: EnumValue,
    complete: bool,
) -> bool {
    exists|j: int| 0 <= j < branches.len() && variant_from(spec, mapping, ep, #[trigger] branches[j], v, complete)
}

/// What an enum built from `branches` holds: one variant per branch whose type resolves, each
/// named after its branch.
pub open spec fn enum_built_from(
    spec: SpecDocument,
    mapping: NameMapping,
    ep: Seq<Seq<char>>,
    branches: Seq<SchemaOrRef>,
    values: Seq<EnumValue>,
    complete: bool,
) -> bool {
    &&& forall|k: int| 0 <= k < values.len() ==> from_some_branch(spec, mapping, ep, branches, #[trigger] values[k], complete)
    &&& complete ==> forall|j: int| 0 <= j < branches.len() && type_resolves(spec, #[trigger] branches[j]) ==> exists|k: int|
        0 <= k < values.len() && Some((#[trigger] values[k]).name@) == branch_variant_name(spec, mapping, ep, branches[j])
}

proof fn lemma_enum_built_extend(
    spec: SpecDocument,
    mapping: NameMapping,
    ep: Seq<Seq<char>>,
    pre: Seq<SchemaOrRef>,
    b: SchemaOrRef,
    values: Seq<EnumValue>,
    complete: bool,
)
    requires
        enum_built_from(spec, mapping, ep, pre, values, complete),
        complete && type_resolves(spec, b) ==> exists|k: int| 0 <= k < values.len() && Some((#[trigger] values[k]).name@)
            == branch_variant_name(spec, mapping, ep, b),
    ensures
        enum_built_from(spec, mapping, ep, pre.push(b), values, complete),
{
    let next = pre.push(b);
    assert forall|k: int| 0 <= k < values.len() implies from_some_branch(spec, mapping, ep, next, #[trigger] values[k], complete) by {
        assert(from_some_branch(spec, mapping, ep, pre, values[k], complete));
        let j = choose|j: int| 0 <= j < pre.len() && variant_from(spec, mapping, ep, #[trigger] pre[j], values[k], complete);
        assert(next[j] == pre[j]);
    }
    if complete {
        assert forall|j: int| 0 <= j < next.len() && type_resolves(spec, #[trigger] next[j]) implies exists|k: int|
            0 <= k < values.len() && Some((#[trigger] values[k]).name@) == branch_variant_name(spec, mapping, ep, next[j]) by {
            if j < pre.len() {
                assert(next[j] == pre[j]);
            }
        }
    }
}

proof fn lemma_enum_built_put(
    spec: SpecDocument,
    mapping: NameMapping,
    ep: Seq<Seq<char>>,
    branches: Seq<SchemaOrRef>,
    before: Seq<EnumValue>,
    after: Seq<EnumValue>,
    v: EnumValue,
    complete: bool,
)
    requires
        branches.len() > 0,
        variant_from(spec, mapping, ep, branches.last(), v, complete),
        enum_built_from(spec, mapping, ep, branches.drop_last(), before, complete),
        exists|k: int| 0 <= k < after.len() && (#[trigger] after[k]).name@ == v.name@,
        forall|k: int| 0 <= k < before.len() ==> exists|k2: int| 0 <= k2 < after.len()
            && (#[trigger] after[k2]).name@ == (#[trigger] before[k]).name@,
        forall|k: int| 0 <= k < after.len() ==> (#[trigger] after[k]) == v || before.contains(after[k]),
    ensures
        enum_built_from(spec, mapping, ep, branches, after, complete),
{
    let pre = branches.drop_last();
    let last = branches.len() - 1;
    assert forall|k: int| 0 <= k < after.len() implies from_some_branch(spec, mapping, ep, branches, #[trigger] after[k], complete) by {
        if after[k] == v {
            assert(variant_from(spec, mapping, ep, branches[last], after[k], complete));
        } else {
            let k2 = choose|k2: int| 0 <= k2 < before.len() && before[k2] == after[k];
            assert(from_some_branch(spec, mapping, ep, pre, before[k2], complete));
            let j = choose|j: int| 0 <= j < pre.len() && variant_from(spec, mapping, ep, #[trigger] pre[j], before[k2], complete);
            assert(branches[j] == pre[j]);
        }
    }
    if complete {
        assert forall|j: int| 0 <= j < branches.len() && type_resolves(spec, #[trigger] branches[j]) implies exists|k: int|
            0 <= k < after.len() && Some((#[trigger] after[k]).name@) == branch_variant_name(spec, mapping, ep, branches[j]) by {
            if j == last {
                let k = choose|k: int| 0 <= k < after.len() && (#[trigger] after[k]).name@ == v.name@;
                assert(Some(after[k].name@) == branch_variant_name(spec, mapping, ep, branches[j]));
            } else {
                assert(branches[j] == pre[j]);
                let k = choose|k: int| 0 <= k < before.len() && Some((#[trigger] before[k]).name@) == branch_variant_name(
                    spec,
                    mapping,
                    ep,
                    pre[j],
                );
                let k2 = choose|k2: int| 0 <= k2 < after.len() && (#[trigger] after[k2]).name@ == before[k].name@;
                assert(Some(after[k2].name@) == branch_variant_name(spec, mapping, ep, branches[j]));
            }
        }
    }
}

/// An enum from the `anyOf` branches of a schema.
pub fn generate_enum_from_any(
    spec: &SpecDocument,
    object_database: &mut ObjectDatabase,
    definition_path: Vec<String>,
    name: &str,
    object_schema: &ObjectSchema,
    name_mapping: &NameMapping,
    depth: u64,
) -> (r: Result<ObjectDefinition, GeneratorError>)
    ensures
        db_extends(*old(object_database), *final(object_database)),
        r matches Ok(o) ==> o matches ObjectDefinition::Enum(e) && e.name@ == object_key(
            *name_mapping,
            definition_path@,
            name@,
        ) && e.values@.len() <= object_schema.any_of@.len() && unique_value_names(e.values@),
        r is Ok <==> branches_nameable(object_schema.any_of@),
        r matches Err(e) ==> e is UnsupportedError,
        r matches Ok(o) ==> o matches ObjectDefinition::Enum(e) && enum_built_from(
            *spec,
            *name_mapping,
            enum_path(*name_mapping, definition_path@, name@),
            object_schema.any_of@,
            e.values@,
            depth > 0,
        ),
    decreases depth, 19int,
{
    generate_enum_from_branches(
        spec,
        object_database,
        definition_path,
        name,
        object_schema,
        true,
        name_mapping,
        depth,
    )
}

/// An enum from the `oneOf` branches of a schema.
pub fn generate_enum_from_one_of(
    spec: &SpecDocument,
    object_database: &mut ObjectDatabase,
    definition_path: Vec<String>,
    name: &str,
    object_schema: &ObjectSchema,
    name_mapping: &NameMapping,
    depth: u64,
) -> (r: Result<ObjectDefinition, GeneratorError>)
    ensures
        db_extends(*old(object_database), *final(object_database)),
        r matches Ok(o) ==> o matches ObjectDefinition::Enum(e) && e.name@ == object_key(
            *name_mapping,
            definition_path@,
            name@,
        ) && e.values@.len() <= object_schema.one_of@.len() && unique_value_names(e.values@),
        r is Ok <==> branches_nameable(object_schema.one_of@),
        r matches Err(e) ==> e is UnsupportedError,
        r matches Ok(o) ==> o matches ObjectDefinition::Enum(e) && enum_built_from(
            *spec,
            *name_mapping,
            enum_path(*name_mapping, definition_path@, name@),
            object_schema.one_of@,
            e.values@,
            depth > 0,
        ),
    decreases depth, 19int,
{
    generate_enum_from_branches(
        spec,
        object_database,
        definition_path,
        name,
        object_schema,
        false,
        name_mapping,
        depth,
    )
}

/// One variant per branch that resolves, named after the branch's type with `Value` added; a
/// branch that fails to resolve is left out. A branch given in place that has neither title
/// nor type fails the whole enum.
#[verifier::rlimit(80)]
fn generate_enum_from_branches(
    spec: &SpecDocument,
    object_database: &mut ObjectDatabase,
    mut definition_path: Vec<String>,
    name: &str,
    object_schema: &ObjectSchema,
    from_any_of: bool,
    name_mapping: &NameMapping,
    depth: u64,
) -> (r: Result<ObjectDefinition, GeneratorError>)
    ensures
        db_extends(*old(object_database), *final(object_database)),
        r matches Ok(o) ==> o matches ObjectDefinition::Enum(e) && e.name@ == object_key(
            *name_mapping,
            definition_path@,
            name@,
        ) && e.values@.len() <= (if from_any_of {
            object_schema.any_of@.len()
        } else {
            object_schema.one_of@.len()
        }) && unique_value_names(e.values@),
        r is Ok <==> branches_nameable(if from_any_of {
            object_schema.any_of@
        } else {
            object_schema.one_of@
        }),
        r matches Err(e) ==> e is UnsupportedError,
        r matches Ok(o) ==> o matches ObjectDefinition::Enum(e) && enum_built_from(
            *spec,
            *name_mapping,
            enum_path(*name_mapping, definition_path@, name@),
            if from_any_of {
                object_schema.any_of@
            } else {
                object_schema.one_of@
            },
            e.values@,
            depth > 0,
        ),
    decreases depth, 18int,
{
    let branches = if from_any_of {
        &object_schema.any_of
    } else {
        &object_schema.one_of
    };
    let enum_name = name_mapping.name_to_struct_name(&definition_path, name);
    let mut values: Vec<EnumValue> = Vec::new();
    let ghost ep = enum_path(*name_mapping, definition_path@, name@);
    definition_path.push(enum_name.clone());
    assert(views(definition_path@) =~= ep);
    let mut i: usize = 0;
    while i < branches.len()
        invariant
            i <= branches@.len(),
            branches@ == (if from_any_of {
                object_schema.any_of@
            } else {
                object_schema.one_of@
            }),
            values@.len() <= i,
            unique_value_names(values@),
            db_extends(*old(object_database), *object_database),
            views(definition_path@) == ep,
            forall|j: int| 0 <= j < i ==> branch_nameable(#[trigger] branches@[j]),
            enum_built_from(*spec, *name_mapping, ep, branches@.take(i as int), values@, depth > 0),
        decreases branches@.len() - i,
    {
        let branch = &branches[i];
        let ghost pre = branches@.take(i as int);
        let ghost next = branches@.take(i + 1);
        assert(next =~= pre.push(*branch));
        i = i + 1;
        let (branch_path, branch_schema): (Vec<String>, &ObjectSchema) = match branch {
            SchemaOrRef::Ref(ref_path) => match resolve_ref(spec, ref_path.as_str()) {
                Err(_) => {
                    proof {
                        lemma_enum_built_extend(*spec, *name_mapping, ep, pre, *branch, values@, depth > 0);
                    }
                    continue;
                },
                Ok(target) => match get_base_path_to_ref(ref_path.as_str()) {
                    Ok(base_path) => (base_path, target),
                    Err(_) => {
                        proof {
                            lemma_enum_built_extend(*spec, *name_mapping, ep, pre, *branch, values@, depth > 0);
                        }
                        continue;
                    },
                },
            },
            SchemaOrRef::Object(b) => (copy_path(&definition_path), &**b),
        };
        let variant_name = match get_object_or_ref_struct_name(spec, &branch_path, name_mapping, branch) {
            Ok((_, type_word, _, _)) => name_mapping.name_to_struct_name(
                &branch_path,
                concat(type_word.as_str(), "Value").as_str(),
            ),
            Err(err) => {
                assert(!branches_nameable(branches@)) by {
                    assert(branches@[i - 1] == *branch);
                }
                let mut m = concat(name, " Anonymous enum value are not supported: ");
                m.append(err.message().as_str());
                return Err(GeneratorError::UnsupportedError(m));
            },
        };
        assert(branch_nameable(*branch));
        assert(branch_variant_name(*spec, *name_mapping, ep, *branch) == Some(variant_name@));
        let ghost db_before = *object_database;
        let outcome = get_type_from_schema(
            spec,
            object_database,
            branch_path,
            branch_schema,
            Some(variant_name.as_str()),
            name_mapping,
            depth,
        );
        proof {
            lemma_extends_trans(*old(object_database), db_before, *object_database);
        }
        match outcome {
            Ok(type_definition) => {
                let ghost before = values@;
                let value = EnumValue { name: variant_name, value_type: type_definition };
                let ghost v = value;
                assert(variant_from(*spec, *name_mapping, ep, *branch, v, depth > 0));
                put_value(&mut values, value);
                proof {
                    assert(next.drop_last() =~= pre);
                    lemma_enum_built_put(*spec, *name_mapping, ep, next, before, values@, v, depth > 0);
                }
            },
            Err(_) => {
                proof {
                    lemma_enum_built_extend(*spec, *name_mapping, ep, pre, *branch, values@, depth > 0);
                }
            },
        }
    }
    assert(branches@.take(branches@.len() as int) =~= branches@);
    Ok(
        ObjectDefinition::Enum(
            EnumDefinition {
                name: enum_name,
                values,
                used_modules: serde_modules(),
                description: copy_text(&object_schema.description),
            },
        ),
    )
}

/// A struct with one property per declared property that resolves; a property that fails to
/// resolve is left out.
pub fn generate_struct(
    spec: &SpecDocument,
    object_database: &mut ObjectDatabase,
    mut definition_path: Vec<String>,
    name: &str,
    object_schema: &ObjectSchema,
    name_mapping: &NameMapping,
    depth: u64,
) -> (r: Result<ObjectDefinition, GeneratorError>)
    ensures
        db_extends(*old(object_database), *final(object_database)),
        r is Ok,
        depth > 0 && (forall|j: int| 0 <= j < object_schema.properties@.len() ==> simple_declared(
            *spec,
            #[trigger] object_schema.properties@[j],
        )) ==> object_entries(*final(object_database)) == object_entries(*old(object_database)),
        depth > 1 ==> (r matches Ok(o) ==> o matches ObjectDefinition::Struct(st) && forall|k: int| 0 <= k < st.properties@.len()
            ==> property_typed_in(*spec, *name_mapping, *final(object_database), *object_schema, #[trigger] st.properties@[k])),
        depth > 1 && (forall|j: int| 0 <= j < object_schema.properties@.len() ==> simple_declared(
            *spec,
            #[trigger] object_schema.properties@[j],
        ) || flat_ref_declared(*spec, object_schema.properties@[j])) ==> object_entries(*final(object_database)).dom()
            == object_entries(*old(object_database)).dom().union(
            flat_ref_keys(*spec, *name_mapping, object_schema.properties@),
        ),
        r matches Ok(o) ==> o matches ObjectDefinition::Struct(s) && s.name@ == pascal_of(
            last_or_empty(special_parts(object_key(*name_mapping, definition_path@, name@))),
        ) && s.package@ == package_of(object_key(*name_mapping, definition_path@, name@))
            && s.properties@.len() <= object_schema.properties@.len() && unique_property_names(s.properties@)
            && forall|k: int| 0 <= k < s.properties@.len() ==> (#[trigger] s.properties@[k]).required
            == required_names(*object_schema).contains(s.properties@[k].real_name@)
            && (forall|k: int| 0 <= k < s.properties@.len() ==> property_from_declared(
            *spec,
            *name_mapping,
            *object_schema,
            #[trigger] s.properties@[k],
            depth > 0,
        )) && (depth > 0 ==> forall|j: int| 0 <= j < object_schema.properties@.len() && type_resolves(
            *spec,
            (#[trigger] object_schema.properties@[j]).1,
        ) ==> has_property_named(
            s.properties@,
            property_name_of(
                *name_mapping,
                views(definition_path@).push(s.name@),
                object_schema.properties@[j].0@,
            ),
        )),
    decreases depth, 17int,
{
    let full_name = name_mapping.name_to_struct_name(&definition_path, name);
    let struct_name = name_mapping.extract_struct_name(full_name.as_str());
    let package_name = name_mapping.extract_package_name(full_name.as_str());
    let ghost old_path = definition_path@;
    definition_path.push(struct_name.clone());
    assert(views(definition_path@) =~= views(old_path).push(struct_name@));
    let mut properties: Vec<PropertyDefinition> = Vec::new();
    let mut i: usize = 0;
    while i < object_schema.properties.len()
        invariant
            i <= object_schema.properties@.len(),
            properties@.len() <= i,
            unique_property_names(properties@),
            forall|k: int| 0 <= k < properties@.len() ==> (#[trigger] properties@[k]).required
                == required_names(*object_schema).contains(properties@[k].real_name@),
            db_extends(*old(object_database), *object_database),
            views(definition_path@) == views(old_path).push(struct_name@),
            forall|k: int| 0 <= k < properties@.len() ==> property_from_declared(
                *spec,
                *name_mapping,
                *object_schema,
                #[trigger] properties@[k],
                depth > 0,
            ),
            depth > 0 && (forall|j: int| 0 <= j < object_schema.properties@.len() ==> simple_declared(
                *spec,
                #[trigger] object_schema.properties@[j],
            )) ==> object_entries(*object_database) == object_entries(*old(object_database)),
            depth > 1 ==> forall|k: int| 0 <= k < properties@.len() ==> property_typed_in(
                *spec,
                *name_mapping,
                *object_database,
                *object_schema,
                #[trigger] properties@[k],
            ),
            depth > 1 && (forall|j: int| 0 <= j < object_schema.properties@.len() ==> simple_declared(
                *spec,
                #[trigger] object_schema.properties@[j],
            ) || flat_ref_declared(*spec, object_schema.properties@[j])) ==> object_entries(*object_database).dom()
                == object_entries(*old(object_database)).dom().union(
                flat_ref_keys(*spec, *name_mapping, object_schema.properties@.take(i as int)),
            ),
            depth > 0 ==> forall|j: int| 0 <= j < i && type_resolves(*spec, (#[trigger] object_schema.properties@[j]).1)
                ==> has_property_named(
                properties@,
                property_name_of(*name_mapping, views(definition_path@), object_schema.properties@[j].0@),
            ),
        decreases object_schema.properties@.len() - i,
    {
        let (property_name, property_ref) = (&object_schema.properties[i].0, &object_schema.properties[i].1);
        let property_required = list_contains(&object_schema.required, property_name.as_str());
        let ghost db_before = *object_database;
        let ghost decls = object_schema.properties@;
        assert(decls.take(i + 1) =~= decls.take(i as int).push(decls[i as int]));
        assert(decls[i as int] == (*property_name, *property_ref));
        let outcome = get_or_create_property(
            spec,
            copy_path(&definition_path),
            property_name,
            property_ref,
            property_required,
            object_database,
            name_mapping,
            depth,
        );
        proof {
            lemma_extends_trans(*old(object_database), db_before, *object_database);
            lemma_flat_keys_step(*spec, *name_mapping, decls, i as int, db_before, *object_database, *old(object_database), depth);
            if depth > 1 {
                assert forall|k: int| 0 <= k < properties@.len() implies property_typed_in(
                    *spec,
                    *name_mapping,
                    *object_database,
                    *object_schema,
                    #[trigger] properties@[k],
                ) by {
                    lemma_typed_kept(*spec, *name_mapping, db_before, *object_database, *object_schema, properties@[k]);
                }
            }
        }
        match outcome {
            Ok(property_definition) => {
                let ghost before = properties@;
                assert(object_schema.properties@[i as int].0@ == property_definition.real_name@);
                assert(property_built_from(
                    *spec,
                    *name_mapping,
                    object_schema.properties@[i as int],
                    property_definition,
                    depth > 0,
                ));
                assert(depth > 1 ==> property_typed_in(*spec, *name_mapping, *object_database, *object_schema, property_definition))
                    by {
                    if depth > 1 {
                        assert(property_built_from(*spec, *name_mapping, decls[i as int], property_definition, true));
                    }
                }
                put_property(&mut properties, property_definition);
                assert(depth > 1 ==> forall|k: int| 0 <= k < properties@.len() ==> property_typed_in(
                    *spec,
                    *name_mapping,
                    *object_database,
                    *object_schema,
                    #[trigger] properties@[k],
                )) by {
                    if depth > 1 {
                        assert forall|k: int| 0 <= k < properties@.len() implies property_typed_in(
                            *spec,
                            *name_mapping,
                            *object_database,
                            *object_schema,
                            #[trigger] properties@[k],
                        ) by {
                            if properties@[k] != property_definition {
                                let j = choose|j: int| 0 <= j < before.len() && before[j] == properties@[k];
                            }
                        }
                    }
                }
                assert forall|k: int| 0 <= k < properties@.len() implies (#[trigger] properties@[k]).required
                    == required_names(*object_schema).contains(properties@[k].real_name@) && property_from_declared(
                    *spec,
                    *name_mapping,
                    *object_schema,
                    properties@[k],
                    depth > 0,
                ) by {
                    if properties@[k] != property_definition {
                        let j = choose|j: int| 0 <= j < before.len() && before[j] == properties@[k];
                        assert(before[j].required == required_names(*object_schema).contains(before[j].real_name@));
                        assert(property_from_declared(*spec, *name_mapping, *object_schema, before[j], depth > 0));
                    }
                }
                assert forall|j: int| 0 <= j < i + 1 && type_resolves(*spec, (#[trigger] object_schema.properties@[j]).1)
                    && depth > 0 implies has_property_named(
                    properties@,
                    property_name_of(*name_mapping, views(definition_path@), object_schema.properties@[j].0@),
                ) by {
                    if j < i {
                        let k = choose|k: int| 0 <= k < before.len() && (#[trigger] before[k]).name@ == property_name_of(
                            *name_mapping,
                            views(definition_path@),
                            object_schema.properties@[j].0@,
                        );
                        let k2 = choose|k2: int| 0 <= k2 < properties@.len() && (#[trigger] properties@[k2]).name@ == before[k].name@;
                    }
                }
            },
            Err(_) => {
                assert(!(depth > 0 && type_resolves(*spec, object_schema.properties@[i as int].1)));
            },
        }
        i = i + 1;
    }
    assert(object_schema.properties@.take(object_schema.properties@.len() as int) =~= object_schema.properties@);
    Ok(
        ObjectDefinition::Struct(
            StructDefinition {
                name: struct_name,
                package: package_name,
                properties,
                used_modules: serde_modules(),
                local_objects: Vec::new(),
                description: copy_text(&object_schema.description),
            },
        ),
    )
}

/// The property comes from a declared property: same wire name, a type that does not fail,
/// and, where the declared type is a scalar or a sequence of a scalar, that type after the
/// property-type overrides.
pub open spec fn property_from_declared(
    spec: SpecDocument,
    mapping: NameMapping,
    schema: ObjectSchema,
    p: PropertyDefinition,
    complete: bool,
) -> bool {
    exists|j: int| 0 <= j < schema.properties@.len() && property_built_from(spec, mapping, #[trigger] schema.properties@[j], p, complete)
}

pub open spec fn property_built_from(
    spec: SpecDocument,
    mapping: NameMapping,
    declared: (String, SchemaOrRef),
    p: PropertyDefinition,
    complete: bool,
) -> bool {
    &&& declared.0@ == p.real_name@
    &&& !branch_fails(spec, declared.1)
    &&& complete ==> match resolved(spec, declared.1) {
        Some(s) => match simple_type_name(spec, s) {
            Some(n) => p.property_type@ == property_type_of(mapping, declared.0@, n),
            None => true,
        },
        None => true,
    }
}

/// Some property has that name.
pub open spec fn has_property_named(ps: Seq<PropertyDefinition>, name: Seq<char>) -> bool {
    exists|k: int| 0 <= k < ps.len() && (#[trigger] ps[k]).name@ == name
}

proof fn lemma_flat_keys_step(
    spec: SpecDocument,
    mapping: NameMapping,
    decls: Seq<(String, SchemaOrRef)>,
    i: int,
    before: ObjectDatabase,
    after: ObjectDatabase,
    start: ObjectDatabase,
    depth: u64,
)
    requires
        0 <= i < decls.len(),
        depth > 1 && (forall|j: int| 0 <= j < decls.len() ==> simple_declared(spec, #[trigger] decls[j]) || flat_ref_declared(
            spec,
            decls[j],
        )) ==> object_entries(before).dom() == object_entries(start).dom().union(flat_ref_keys(spec, mapping, decls.take(i))),
        depth > 0 && simple_declared(spec, decls[i]) ==> object_entries(after) == object_entries(before),
        depth > 1 && flat_ref_declared(spec, decls[i]) ==> registers_one(
            before,
            after,
            ref_key(mapping, decls[i].1->Ref_0@, resolved_ref(spec, decls[i].1->Ref_0@)->Some_0),
        ),
    ensures
        depth > 1 && (forall|j: int| 0 <= j < decls.len() ==> simple_declared(spec, #[trigger] decls[j]) || flat_ref_declared(
            spec,
            decls[j],
        )) ==> object_entries(after).dom() == object_entries(start).dom().union(flat_ref_keys(spec, mapping, decls.take(i + 1))),
{
    if depth > 1 && (forall|j: int| 0 <= j < decls.len() ==> simple_declared(spec, #[trigger] decls[j]) || flat_ref_declared(
        spec,
        decls[j],
    )) {
        let pre = decls.take(i);
        let next = decls.take(i + 1);
        assert(next =~= pre.push(decls[i]));
        assert(simple_declared(spec, decls[i]) || flat_ref_declared(spec, decls[i]));
        if flat_ref_declared(spec, decls[i]) {
            let key = ref_key(mapping, decls[i].1->Ref_0@, resolved_ref(spec, decls[i].1->Ref_0@)->Some_0);
            assert(flat_ref_keys(spec, mapping, next) =~= flat_ref_keys(spec, mapping, pre).insert(key)) by {
                assert forall|k: Seq<char>| flat_ref_keys(spec, mapping, next).contains(k) implies flat_ref_keys(
                    spec,
                    mapping,
                    pre,
                ).insert(key).contains(k) by {
                    let j = choose|j: int| 0 <= j < next.len() && flat_ref_declared(spec, #[trigger] next[j]) && k == ref_key(
                        mapping,
                        next[j].1->Ref_0@,
                        resolved_ref(spec, next[j].1->Ref_0@)->Some_0,
                    );
                    if j < pre.len() {
                        assert(next[j] == pre[j]);
                    }
                }
                assert forall|k: Seq<char>| flat_ref_keys(spec, mapping, pre).insert(key).contains(k) implies flat_ref_keys(
                    spec,
                    mapping,
                    next,
                ).contains(k) by {
                    if k == key {
                        assert(next[i] == decls[i]);
                    } else {
                        let j = choose|j: int| 0 <= j < pre.len() && flat_ref_declared(spec, #[trigger] pre[j]) && k == ref_key(
                            mapping,
                            pre[j].1->Ref_0@,
                            resolved_ref(spec, pre[j].1->Ref_0@)->Some_0,
                        );
                        assert(next[j] == pre[j]);
                    }
                }
            }
            if object_entries(before).contains_key(key) {
                assert(object_entries(after).dom() =~= object_entries(start).dom().union(flat_ref_keys(spec, mapping, next)));
            } else {
                assert(object_entries(after).dom() =~= object_entries(before).dom().insert(key));
                assert(object_entries(after).dom() =~= object_entries(start).dom().union(flat_ref_keys(spec, mapping, next)));
            }
        } else {
            assert(!flat_ref_declared(spec, decls[i])) by {
                if flat_ref_declared(spec, decls[i]) {
                    let x = resolved_ref(spec, decls[i].1->Ref_0@)->Some_0;
                    assert(struct_schema(x));
                }
            }
            assert(flat_ref_keys(spec, mapping, next) =~= flat_ref_keys(spec, mapping, pre)) by {
                assert forall|k: Seq<char>| flat_ref_keys(spec, mapping, next).contains(k) implies flat_ref_keys(
                    spec,
                    mapping,
                    pre,
                ).contains(k) by {
                    let j = choose|j: int| 0 <= j < next.len() && flat_ref_declared(spec, #[trigger] next[j]) && k == ref_key(
                        mapping,
                        next[j].1->Ref_0@,
                        resolved_ref(spec, next[j].1->Ref_0@)->Some_0,
                    );
                    if j < pre.len() {
                        assert(next[j] == pre[j]);
                    }
                }
                assert forall|k: Seq<char>| flat_ref_keys(spec, mapping, pre).contains(k) implies flat_ref_keys(
                    spec,
                    mapping,
                    next,
                ).contains(k) by {
                    let j = choose|j: int| 0 <= j < pre.len() && flat_ref_declared(spec, #[trigger] pre[j]) && k == ref_key(
                        mapping,
                        pre[j].1->Ref_0@,
                        resolved_ref(spec, pre[j].1->Ref_0@)->Some_0,
                    );
                    assert(next[j] == pre[j]);
                }
            }
        }
    }
}

/// One property: its type resolved, its name converted, and its wire name kept.
pub fn get_or_create_property(
    spec: &SpecDocument,
    definition_path: Vec<String>,
    property_name: &String,
    property_ref: &SchemaOrRef,
    required: bool,
    object_database: &mut ObjectDatabase,
    name_mapping: &NameMapping,
    depth: u64,
) -> (r: Result<PropertyDefinition, GeneratorError>)
    ensures
        db_extends(*old(object_database), *final(object_database)),
        r matches Ok(p) ==> p.real_name@ == property_name@ && p.required == required && p.name@
            == property_name_of(*name_mapping, views(definition_path@), property_name@),
        resolved(*spec, *property_ref) is None ==> (r matches Err(e) && e is ResolveError),
        type_resolves(*spec, *property_ref) && depth > 0 ==> r is Ok,
        r matches Ok(p) ==> property_built_from(*spec, *name_mapping, (*property_name, *property_ref), p, depth > 0),
        depth > 0 && simple_declared(*spec, (*property_name, *property_ref)) ==> object_entries(*final(object_database))
            == object_entries(*old(object_database)),
        depth > 1 && flat_ref_declared(*spec, (*property_name, *property_ref)) ==> (r matches Ok(p) && flat_ref_typed(
            *spec,
            *name_mapping,
            *final(object_database),
            (*property_name, *property_ref),
            p,
        )),
        depth > 1 && flat_ref_declared(*spec, (*property_name, *property_ref)) ==> registers_one(
            *old(object_database),
            *final(object_database),
            ref_key(*name_mapping, property_ref->Ref_0@, resolved_ref(*spec, property_ref->Ref_0@)->Some_0),
        ),
    decreases depth, 16int,
{
    let property = match resolve_schema(spec, property_ref) {
        Ok(p) => p,
        Err(err) => {
            let mut m = concat("Failed to resolve ", property_name.as_str());
            m.append(" ");
            m.append(err.message().as_str());
            return Err(GeneratorError::ResolveError(m));
        },
    };
    let (type_path, type_word, description, _example) = match get_object_or_ref_struct_name(
        spec,
        &definition_path,
        name_mapping,
        property_ref,
    ) {
        Ok(t) => t,
        Err(err) => {
            return Err(err);
        },
    };
    match get_type_from_schema(
        spec,
        object_database,
        type_path,
        property,
        Some(type_word.as_str()),
        name_mapping,
        depth,
    ) {
        Ok(type_definition) => Ok(
            PropertyDefinition {
                property_type: name_mapping.type_to_property_type(
                    property_name.as_str(),
                    type_definition.name.as_str(),
                ),
                module: type_definition.module,
                name: name_mapping.name_to_property_name(&definition_path, property_name.as_str()),
                real_name: property_name.clone(),
                required,
                description,
                example: copy_text(&property.example),
            },
        ),
        Err(err) => Err(err),
    }
}

/// The type of a schema: a scalar, a sequence of its item type, or a registered struct or
/// enum; a schema with no type and no branches is a string.
pub fn get_type_from_schema(
    spec: &SpecDocument,
    object_database: &mut ObjectDatabase,
    definition_path: Vec<String>,
    object_schema: &ObjectSchema,
    object_variable_fallback_name: Option<&str>,
    name_mapping: &NameMapping,
    depth: u64,
) -> (r: Result<TypeDefinition, GeneratorError>)
    ensures
        db_extends(*old(object_database), *final(object_database)),
        match object_schema.schema_type {
            Some(st) => type_set_outcome(st, *object_schema, object_variable_fallback_name, r),
            None => object_schema.any_of@.len() == 0 && object_schema.one_of@.len() == 0 ==> type_set_outcome(
                SchemaTypeSet::Single(SchemaType::String),
                *object_schema,
                object_variable_fallback_name,
                r,
            ),
        },
        is_named(*object_schema, object_variable_fallback_name) && (depth > 0 || scalar_schema_name(*object_schema) is Some)
            ==> (simple_type_name(*spec, *object_schema)
            matches Some(n) ==> (r matches Ok(td) && td.name@ == n && td.module is None && td.description
            == object_schema.description && object_entries(*final(object_database)) == object_entries(
            *old(object_database),
        ))),
        is_named(*object_schema, object_variable_fallback_name) && struct_schema(*object_schema) && depth > 0 ==> (r is Ok
            && registered(
            *final(object_database),
            object_key(*name_mapping, definition_path@, variable_name(*object_schema, object_variable_fallback_name)),
        ) is Some),
        object_schema.schema_type == Some(SchemaTypeSet::Single(SchemaType::Object)) && is_named(
            *object_schema,
            object_variable_fallback_name,
        ) && flat_struct(*spec, *object_schema) && depth > 1 ==> registers_one(
            *old(object_database),
            *final(object_database),
            object_key(*name_mapping, definition_path@, variable_name(*object_schema, object_variable_fallback_name)),
        ),
        object_schema.schema_type == Some(SchemaTypeSet::Single(SchemaType::Object)) && is_named(
            *object_schema,
            object_variable_fallback_name,
        ) && object_builds(*object_schema) && depth > 0 ==> (r matches Ok(td) && registered(
            *final(object_database),
            object_key(*name_mapping, definition_path@, variable_name(*object_schema, object_variable_fallback_name)),
        ) matches Some(o) && td.name@ == object_case_type_name(*name_mapping, o)),
        object_schema.schema_type is None && object_schema.any_of@.len() == 0 && object_schema.one_of@.len() == 0 && is_named(
            *object_schema,
            object_variable_fallback_name,
        ) ==> (r matches Ok(td) && td.name@ == "String"@ && td.module is None && td.description
            == object_schema.description && object_entries(*final(object_database)) == object_entries(*old(object_database))),
        object_schema.schema_type matches Some(st) ==> (resolves_without_registering(
            st,
            *object_schema,
            object_variable_fallback_name,
        ) ==> object_entries(*final(object_database)) == object_entries(*old(object_database))),
        object_schema.schema_type is None && (object_schema.any_of@.len() > 0 || object_schema.one_of@.len() > 0) ==> (
        is_named(*object_schema, object_variable_fallback_name) && object_builds(*object_schema) && depth > 0 ==> (r matches Ok(
            td,
        ) && registered(
            *final(object_database),
            object_key(
                *name_mapping,
                definition_path@,
                union_variable_name(*name_mapping, definition_path@, *object_schema, object_variable_fallback_name),
            ),
        ) matches Some(o) && refers_to(*name_mapping, td, o))),
        object_schema.schema_type == Some(SchemaTypeSet::Single(SchemaType::Object)) && is_named(
            *object_schema,
            object_variable_fallback_name,
        ) && object_builds(*object_schema) && depth > 0 ==> (r matches Ok(td) && registered(
            *final(object_database),
            object_key(*name_mapping, definition_path@, variable_name(*object_schema, object_variable_fallback_name)),
        ) matches Some(o) && refers_to(*name_mapping, td, o)),
    decreases depth, 15int,
{
    if let Some(schema_type) = &object_schema.schema_type {
        return get_type_from_schema_type(
            spec,
            object_database,
            definition_path,
            schema_type,
            object_schema,
            object_variable_fallback_name,
            name_mapping,
            depth,
        );
    }
    if object_schema.any_of.len() > 0 || object_schema.one_of.len() > 0 {
        return get_type_from_any_type(
            spec,
            object_database,
            definition_path,
            object_schema,
            object_variable_fallback_name,
            name_mapping,
            depth,
        );
    }
    let string_type = SchemaTypeSet::Single(SchemaType::String);
    get_type_from_schema_type(
        spec,
        object_database,
        definition_path,
        &string_type,
        object_schema,
        object_variable_fallback_name,
        name_mapping,
        depth,
    )
}

/// The type set is the one the schema declares.
pub open spec fn schema_type_is(st: SchemaTypeSet, schema: ObjectSchema) -> bool {
    schema.schema_type == Some(st)
}

/// What resolving a schema under a type set gives, as far as the type set alone decides it.
pub open spec fn type_set_outcome(
    st: SchemaTypeSet,
    schema: ObjectSchema,
    fallback: Option<&str>,
    r: Result<TypeDefinition, GeneratorError>,
) -> bool {
    match st {
        SchemaTypeSet::Multiple(_) => r matches Err(e) && e is UnsupportedError,
        SchemaTypeSet::Single(t) => if !is_named(schema, fallback) {
            r matches Err(e) && e is ResolveError
        } else {
            match scalar_type_name(t) {
                Some(n) => r matches Ok(td) && td.name@ == n && td.module is None,
                None => match t {
                    SchemaType::Array => (schema.items is None ==> (r matches Err(e) && e is UnsupportedError))
                        && (r matches Ok(td) ==> is_prefix("Vec<"@, td.name@) && is_suffix(">"@, td.name@)),
                    SchemaType::Object => r matches Ok(td) ==> td.name@ == "serde_json::Value"@ || td.module is Some,
                    _ => r matches Err(e) && e is UnsupportedError,
                },
            }
        },
    }
}

/// The type of a schema with `anyOf` or `oneOf` branches: the enum registered for it.
pub fn get_type_from_any_type(
    spec: &SpecDocument,
    object_database: &mut ObjectDatabase,
    definition_path: Vec<String>,
    object_schema: &ObjectSchema,
    object_variable_fallback_name: Option<&str>,
    name_mapping: &NameMapping,
    depth: u64,
) -> (r: Result<TypeDefinition, GeneratorError>)
    ensures
        db_extends(*old(object_database), *final(object_database)),
        !is_named(*object_schema, object_variable_fallback_name) ==> (r matches Err(e) && e is ResolveError),
        r matches Ok(td) ==> td.module is Some,
        is_named(*object_schema, object_variable_fallback_name) && object_builds(*object_schema) && depth > 0 ==> (r matches Ok(
            td,
        ) && registered(
            *final(object_database),
            object_key(
                *name_mapping,
                definition_path@,
                union_variable_name(*name_mapping, definition_path@, *object_schema, object_variable_fallback_name),
            ),
        ) matches Some(o) && refers_to(*name_mapping, td, o)),
    decreases depth, 14int,
{
    let object_variable_name = match &object_schema.title {
        Some(title) => name_mapping.name_to_struct_name(&definition_path, title.as_str()),
        None => match object_variable_fallback_name {
            Some(fallback) => fallback.to_owned(),
            None => {
                return Err(
                    GeneratorError::ResolveError(
                        "Cannot fetch type because no title or title_fallback was given".to_owned(),
                    ),
                );
            },
        },
    };
    let object_definition = match get_or_create_object(
        spec,
        object_database,
        definition_path,
        object_variable_name.as_str(),
        object_schema,
        name_mapping,
        depth,
    ) {
        Ok(o) => o,
        Err(err) => {
            return Err(err);
        },
    };
    Ok(object_type_definition(&object_definition, name_mapping, copy_text(&object_schema.description)))
}

/// The type of a schema under a given type set.
pub fn get_type_from_schema_type(
    spec: &SpecDocument,
    object_database: &mut ObjectDatabase,
    definition_path: Vec<String>,
    schema_type: &SchemaTypeSet,
    object_schema: &ObjectSchema,
    object_variable_fallback_name: Option<&str>,
    name_mapping: &NameMapping,
    depth: u64,
) -> (r: Result<TypeDefinition, GeneratorError>)
    ensures
        db_extends(*old(object_database), *final(object_database)),
        type_set_outcome(*schema_type, *object_schema, object_variable_fallback_name, r),
        is_named(*object_schema, object_variable_fallback_name) && (depth > 0 || scalar_schema_name(*object_schema) is Some)
            && schema_type_is(*schema_type, *object_schema) ==> (simple_type_name(*spec, *object_schema) matches Some(n) ==> (r matches Ok(td) && td.name@ == n
            && td.module is None && td.description == object_schema.description && object_entries(
            *final(object_database),
        ) == object_entries(*old(object_database)))),
        is_named(*object_schema, object_variable_fallback_name) && struct_schema(*object_schema) && depth > 0
            && schema_type_is(*schema_type, *object_schema) ==> (r is Ok && registered(
            *final(object_database),
            object_key(*name_mapping, definition_path@, variable_name(*object_schema, object_variable_fallback_name)),
        ) is Some),
        is_named(*object_schema, object_variable_fallback_name) ==> (*schema_type matches SchemaTypeSet::Single(t)
            ==> (scalar_type_name(t) is Some ==> (r matches Ok(td) && td.description == object_schema.description))),
        resolves_without_registering(*schema_type, *object_schema, object_variable_fallback_name) ==> object_entries(
            *final(object_database),
        ) == object_entries(*old(object_database)),
        is_named(*object_schema, object_variable_fallback_name) && *schema_type == SchemaTypeSet::Single(SchemaType::Object)
            && object_builds(*object_schema) && depth > 0 ==> (r matches Ok(td) && registered(
            *final(object_database),
            object_key(*name_mapping, definition_path@, variable_name(*object_schema, object_variable_fallback_name)),
        ) matches Some(o) && refers_to(*name_mapping, td, o)),
        is_named(*object_schema, object_variable_fallback_name) && *schema_type == SchemaTypeSet::Single(SchemaType::Object)
            && flat_struct(*spec, *object_schema) && depth > 1 ==> registers_one(
            *old(object_database),
            *final(object_database),
            object_key(*name_mapping, definition_path@, variable_name(*object_schema, object_variable_fallback_name)),
        ),
        is_named(*object_schema, object_variable_fallback_name) && *schema_type == SchemaTypeSet::Single(SchemaType::Object)
            && object_builds(*object_schema) && depth > 0 ==> (r matches Ok(td) && registered(
            *final(object_database),
            object_key(*name_mapping, definition_path@, variable_name(*object_schema, object_variable_fallback_name)),
        ) matches Some(o) && td.name@ == object_case_type_name(*name_mapping, o)),
        *schema_type == SchemaTypeSet::Single(SchemaType::Array) ==> (r matches Ok(td) ==> exists|item: TypeDefinition|
            td.name@ == "Vec<"@ + item.name@ + ">"@ && td.module == item.module),
    decreases depth, 14int,
{
    let single_type = match schema_type {
        SchemaTypeSet::Single(t) => *t,
        SchemaTypeSet::Multiple(_) => {
            return Err(GeneratorError::UnsupportedError("MultiType".to_owned()));
        },
    };
    let object_variable_name = match &object_schema.title {
        Some(title) => title.clone(),
        None => match object_variable_fallback_name {
            Some(fallback) => fallback.to_owned(),
            None => {
                return Err(
                    GeneratorError::ResolveError(
                        "Cannot fetch type because no title or title_fallback was given".to_owned(),
                    ),
                );
            },
        },
    };
    let scalar = match single_type {
        SchemaType::Boolean => Some("bool"),
        SchemaType::String => Some("String"),
        SchemaType::Number => Some("f64"),
        SchemaType::Integer => Some("i32"),
        _ => None,
    };
    if let Some(scalar_name) = scalar {
        return Ok(
            TypeDefinition {
                name: scalar_name.to_owned(),
                module: None,
                description: copy_text(&object_schema.description),
                example: copy_text(&object_schema.example),
            },
        );
    }
    match single_type {
        SchemaType::Array => {
            let item_object_ref: &SchemaOrRef = match &object_schema.items {
                Some(item) => &**item,
                None => {
                    return Err(GeneratorError::UnsupportedError("Array has no item type".to_owned()));
                },
            };
            let (item_path, item_type_word, _, _) = match get_object_or_ref_struct_name(
                spec,
                &definition_path,
                name_mapping,
                item_object_ref,
            ) {
                Ok(t) => t,
                Err(err) => {
                    return Err(err);
                },
            };
            let item_object = match resolve_schema(spec, item_object_ref) {
                Ok(item) => item,
                Err(err) => {
                    return Err(GeneratorError::ResolveError(concat("Failed to resolve ArrayItem ", err.message().as_str())));
                },
            };
            if depth == 0 {
                return Err(GeneratorError::UnsupportedError("Arrays nested this deep".to_owned()));
            }
            match get_type_from_schema(
                spec,
                object_database,
                item_path,
                item_object,
                Some(item_type_word.as_str()),
                name_mapping,
                depth - 1,
            ) {
                Ok(item_type) => {
                    let mut wrapped = "Vec<".to_owned();
                    wrapped.append(item_type.name.as_str());
                    wrapped.append(">");
                    assert(wrapped@.subrange(0, "Vec<"@.len() as int) =~= "Vec<"@);
                    assert(wrapped@.subrange(wrapped@.len() - ">"@.len(), wrapped@.len() as int) =~= ">"@);
                    Ok(
                        TypeDefinition {
                            name: wrapped,
                            module: item_type.module,
                            description: copy_text(&object_schema.description),
                            example: match &object_schema.example {
                                Some(example) => Some(example.clone()),
                                None => item_type.example,
                            },
                        },
                    )
                },
                Err(err) => Err(err),
            }
        },
        SchemaType::Object => {
            let object_definition = match get_or_create_object(
                spec,
                object_database,
                definition_path,
                object_variable_name.as_str(),
                object_schema,
                name_mapping,
                depth,
            ) {
                Ok(o) => o,
                Err(err) => {
                    return Err(err);
                },
            };
            let object_name = get_object_name(&object_definition);
            if str_eq(object_name.as_str(), "object") || str_eq(object_name.as_str(), "dict") {
                return Ok(
                    TypeDefinition {
                        name: "serde_json::Value".to_owned(),
                        module: None,
                        description: copy_text(&object_schema.description),
                        example: None,
                    },
                );
            }
            Ok(object_type_definition(&object_definition, name_mapping, copy_text(&object_schema.description)))
        },
        _ => Err(GeneratorError::UnsupportedError("Type Null".to_owned())),
    }
}


/// Resolution is deterministic: once a name is registered, every later resolution keeps the
/// same definition under it, so looking the name up again (which returns the registered entry
/// unchanged) yields that definition and adds no second entry.
pub proof fn lemma_registration_is_stable(
    before: ObjectDatabase,
    after: ObjectDatabase,
    key: Seq<char>,
    o: ObjectDefinition,
)
    requires
        registered(before, key) == Some(o),
        db_extends(before, after),
    ensures
        registered(after, key) == Some(o),
        object_entries(after).dom().contains(key),
{
    assert(object_entries(before).dom().contains(key));
    assert(object_entries(after).dom().contains(key));
}

} // verus!
