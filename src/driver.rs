//! The drivers: every declared component, then every operation of every URL template, each
//! failure recorded and passed over.
use crate::config::Config;
use crate::database::{
    contains_object, object_entries, path_entries, ObjectDatabase, PathDatabase,
};
use crate::default_request;
use crate::default_request::{models_call, queries_resolve};
use crate::path_utils::{all_statuses_named, request_body_resolves};
use crate::websocket_request::ok_response_is_json;
use crate::errors::GeneratorError;
use crate::name_mapping::{module_name_of, struct_name_of, validate_component_name, validated_component_name};
use crate::resolver::{db_extends, get_or_create_object, registered, struct_schema, MAX_RESOLUTION_DEPTH};
use crate::schema::{
    schema_is_empty, components_base_path, get_components_base_path, resolve_schema, resolved, ObjectSchema, Operation, SpecDocument,
    StreamExtension,
};
use crate::text::{replace, replaced, views};
use crate::types::Method;
use crate::websocket_request;
use vstd::prelude::*;
use vstd::string::*;

verus! {

/// What a driver did: how many items it generated, how many it found already done, and why
/// each failed item failed.
#[derive(Debug)]
pub struct GenerationReport {
    pub generated: u64,
    pub skipped: u64,
    pub failures: Vec<(String, GeneratorError)>,
}

/// A component name with the `._common___` separators of some generators turned into `.`.
pub open spec fn cleaned_component_name(raw: Seq<char>) -> Seq<char> {
    replaced(replaced(raw, "._common___"@, "."@), "._common___"@, "."@)
}

/// How many of the first `n` components the ignore list leaves in.
pub open spec fn components_in_scope(spec: SpecDocument, config: Config, n: int) -> nat
    decreases n,
{
    if n <= 0 {
        0
    } else {
        components_in_scope(spec, config, n - 1) + if views(config.ignore.components@).contains(
            cleaned_component_name(spec.schemas@[n - 1].0@),
        ) {
            0nat
        } else {
            1nat
        }
    }
}

/// How many operations the URL templates that the ignore list leaves in have, over the first
/// `n` templates.
pub open spec fn operations_in_scope(spec: SpecDocument, config: Config, n: int) -> nat
    decreases n,
{
    if n <= 0 {
        0
    } else {
        operations_in_scope(spec, config, n - 1) + if views(config.ignore.paths@).contains(spec.paths@[n - 1].0@) {
            0nat
        } else {
            spec.paths@[n - 1].1.operations@.len()
        }
    }
}

/// The key a component that resolves to `s` is registered under: its title, or else its
/// cleaned and qualified name, mapped as a struct name under the components' path.
pub open spec fn component_key(config: Config, raw: Seq<char>, s: ObjectSchema) -> Seq<char> {
    let base = components_base_path();
    let object_name = struct_name_of(
        config.name_mapping,
        base,
        match s.title {
            Some(t) => t@,
            None => validated_component_name(cleaned_component_name(raw), config.name_mapping.use_scope),
        },
    );
    struct_name_of(config.name_mapping, base, object_name)
}

/// Every component among the first `n` that is not ignored and whose schema becomes a struct
/// has an entry under its key.
pub open spec fn components_registered(spec: SpecDocument, config: Config, db: ObjectDatabase, n: int) -> bool {
    forall|i: int| 0 <= i < n && !views(config.ignore.components@).contains(cleaned_component_name(spec.schemas@[i].0@))
        ==> match resolved(spec, (#[trigger] spec.schemas@[i]).1) {
            Some(s) => struct_schema(s) ==> registered(db, component_key(config, spec.schemas@[i].0@, s)) is Some,
            None => true,
        }
}

/// A failure of that kind is reported under the name.
pub open spec fn invalid_reported(failures: Seq<(String, GeneratorError)>, name: Seq<char>) -> bool {
    exists|j: int| 0 <= j < failures.len() && (#[trigger] failures[j]).0@ == name && failures[j].1 is InvalidValueError
}

/// Every component among the first `n` in scope whose schema is empty, and whose key has no
/// entry, is reported as an invalid value under its qualified name.
pub open spec fn empty_components_reported(
    spec: SpecDocument,
    config: Config,
    db: ObjectDatabase,
    failures: Seq<(String, GeneratorError)>,
    n: int,
) -> bool {
    forall|i: int| 0 <= i < n && !views(config.ignore.components@).contains(cleaned_component_name(spec.schemas@[i].0@))
        ==> match resolved(spec, (#[trigger] spec.schemas@[i]).1) {
            Some(s) => schema_is_empty(s) && registered(db, component_key(config, spec.schemas@[i].0@, s)) is None
                ==> invalid_reported(
                failures,
                validated_component_name(cleaned_component_name(spec.schemas@[i].0@), config.name_mapping.use_scope),
            ),
            None => true,
        }
}

proof fn lemma_empty_reported_kept(
    spec: SpecDocument,
    config: Config,
    db1: ObjectDatabase,
    db2: ObjectDatabase,
    f1: Seq<(String, GeneratorError)>,
    f2: Seq<(String, GeneratorError)>,
    n: int,
)
    requires
        empty_components_reported(spec, config, db1, f1, n),
        db_extends(db1, db2),
        f1.len() <= f2.len(),
        forall|j: int| 0 <= j < f1.len() ==> f2[j] == f1[j],
    ensures
        empty_components_reported(spec, config, db2, f2, n),
{
    assert forall|i: int| 0 <= i < n && !views(config.ignore.components@).contains(
        cleaned_component_name(spec.schemas@[i].0@),
    ) implies match resolved(spec, (#[trigger] spec.schemas@[i]).1) {
        Some(s) => schema_is_empty(s) && registered(db2, component_key(config, spec.schemas@[i].0@, s)) is None
            ==> invalid_reported(
            f2,
            validated_component_name(cleaned_component_name(spec.schemas@[i].0@), config.name_mapping.use_scope),
        ),
        None => true,
    } by {
        if let Some(s) = resolved(spec, spec.schemas@[i].1) {
            let key = component_key(config, spec.schemas@[i].0@, s);
            let name = validated_component_name(cleaned_component_name(spec.schemas@[i].0@), config.name_mapping.use_scope);
            if schema_is_empty(s) && registered(db2, key) is None {
                if object_entries(db1).dom().contains(key) {
                    assert(object_entries(db2).dom().contains(key));
                }
                let j = choose|j: int| 0 <= j < f1.len() && (#[trigger] f1[j]).0@ == name && f1[j].1 is InvalidValueError;
                assert(f2[j] == f1[j]);
            }
        }
    }
}

proof fn lemma_empty_reported_step(
    spec: SpecDocument,
    config: Config,
    db: ObjectDatabase,
    f: Seq<(String, GeneratorError)>,
    n: int,
)
    requires
        0 < n <= spec.schemas@.len(),
        empty_components_reported(spec, config, db, f, n - 1),
        !views(config.ignore.components@).contains(cleaned_component_name(spec.schemas@[n - 1].0@)) ==> match resolved(
            spec,
            spec.schemas@[n - 1].1,
        ) {
            Some(s) => schema_is_empty(s) && registered(db, component_key(config, spec.schemas@[n - 1].0@, s)) is None
                ==> invalid_reported(
                f,
                validated_component_name(cleaned_component_name(spec.schemas@[n - 1].0@), config.name_mapping.use_scope),
            ),
            None => true,
        },
    ensures
        empty_components_reported(spec, config, db, f, n),
{
}

proof fn lemma_components_still_registered(
    spec: SpecDocument,
    config: Config,
    before: ObjectDatabase,
    after: ObjectDatabase,
    n: int,
)
    requires
        components_registered(spec, config, before, n),
        db_extends(before, after),
    ensures
        components_registered(spec, config, after, n),
{
    assert forall|i: int| 0 <= i < n && !views(config.ignore.components@).contains(
        cleaned_component_name(spec.schemas@[i].0@),
    ) implies match resolved(spec, (#[trigger] spec.schemas@[i]).1) {
        Some(s) => struct_schema(s) ==> registered(after, component_key(config, spec.schemas@[i].0@, s)) is Some,
        None => true,
    } by {
        if let Some(s) = resolved(spec, spec.schemas@[i].1) {
            if struct_schema(s) {
                let key = component_key(config, spec.schemas@[i].0@, s);
                assert(object_entries(before).dom().contains(key));
                assert(object_entries(after).dom().contains(key));
            }
        }
    }
}

proof fn lemma_components_registered_step(spec: SpecDocument, config: Config, db: ObjectDatabase, n: int)
    requires
        0 < n <= spec.schemas@.len(),
        components_registered(spec, config, db, n - 1),
        !views(config.ignore.components@).contains(cleaned_component_name(spec.schemas@[n - 1].0@)) ==> match resolved(
            spec,
            spec.schemas@[n - 1].1,
        ) {
            Some(s) => struct_schema(s) ==> registered(db, component_key(config, spec.schemas@[n - 1].0@, s)) is Some,
            None => true,
        },
    ensures
        components_registered(spec, config, db, n),
{
}

/// Some failure is a `MissingIdError` reported under the URL template.
pub open spec fn missing_id_reported(failures: Seq<(String, GeneratorError)>, path: Seq<char>) -> bool {
    exists|j: int| 0 <= j < failures.len() && (#[trigger] failures[j]).0@ == path && failures[j].1 is MissingIdError
}

/// Registers a definition for every declared component that is not ignored and not yet
/// registered; a component that fails is recorded and passed over.
pub fn generate_components(
    spec: &SpecDocument,
    config: &Config,
    object_database: &mut ObjectDatabase,
) -> (r: GenerationReport)
    ensures
        db_extends(*old(object_database), *final(object_database)),
        r.generated + r.skipped + r.failures@.len() == components_in_scope(*spec, *config, spec.schemas@.len() as int),
        components_registered(*spec, *config, *final(object_database), spec.schemas@.len() as int),
        empty_components_reported(*spec, *config, *final(object_database), r.failures@, spec.schemas@.len() as int),
{
    proof {
        reveal_strlit("._common___");
    }
    let mut generated: u64 = 0;
    let mut skipped: u64 = 0;
    let mut failures: Vec<(String, GeneratorError)> = Vec::new();
    let mut i: usize = 0;
    while i < spec.schemas.len()
        invariant
            i <= spec.schemas@.len(),
            generated + skipped + failures@.len() == components_in_scope(*spec, *config, i as int),
            components_in_scope(*spec, *config, i as int) <= i,
            db_extends(*old(object_database), *object_database),
            components_registered(*spec, *config, *object_database, i as int),
            empty_components_reported(*spec, *config, *object_database, failures@, i as int),
        decreases spec.schemas@.len() - i,
    {
        proof {
            reveal_strlit("._common___");
        }
        let ghost db_start = *object_database;
        let ghost failures_start = failures@;
        let (raw_name, object_ref) = (&spec.schemas[i].0, &spec.schemas[i].1);
        assert(raw_name@ == spec.schemas@[i as int].0@);
        i = i + 1;
        let fixed = replace(raw_name.as_str(), "._common___", ".");
        let component_name = replace(fixed.as_str(), "._common___", ".");
        assert(component_name@ == cleaned_component_name(spec.schemas@[i - 1].0@));
        if config.ignore.component_ignored(component_name.as_str()) {
            proof {
                lemma_components_registered_step(*spec, *config, *object_database, i as int);
                lemma_empty_reported_step(*spec, *config, *object_database, failures@, i as int);
            }
            continue;
        }
        let resolved_object = match resolve_schema(spec, object_ref) {
            Ok(object) => object,
            Err(err) => {
                failures.push((component_name, err));
                proof {
                    lemma_components_registered_step(*spec, *config, *object_database, i as int);
                    lemma_empty_reported_kept(*spec, *config, db_start, *object_database, failures_start, failures@, i - 1);
                    lemma_empty_reported_step(*spec, *config, *object_database, failures@, i as int);
                }
                continue;
            },
        };
        let component_name = validate_component_name(component_name.as_str(), config.name_mapping.use_scope);
        let definition_path = get_components_base_path();
        let object_name = match &resolved_object.title {
            Some(title) => config.name_mapping.name_to_struct_name(&definition_path, title.as_str()),
            None => config.name_mapping.name_to_struct_name(&definition_path, component_name.as_str()),
        };
        let key = config.name_mapping.name_to_struct_name(&definition_path, object_name.as_str());
        if contains_object(object_database, &key) {
            skipped = skipped + 1;
            proof {
                lemma_components_registered_step(*spec, *config, *object_database, i as int);
                lemma_empty_reported_step(*spec, *config, *object_database, failures@, i as int);
            }
            continue;
        }
        let ghost db_before = *object_database;
        let outcome = get_or_create_object(
            spec,
            object_database,
            definition_path,
            object_name.as_str(),
            resolved_object,
            &config.name_mapping,
            MAX_RESOLUTION_DEPTH,
        );
        proof {
            vstd::map_lib::lemma_submap_of_trans(
                object_entries(*old(object_database)),
                object_entries(db_before),
                object_entries(*object_database),
            );
            lemma_components_still_registered(*spec, *config, db_before, *object_database, (i - 1) as int);
        }
        let ghost name = component_name@;
        match outcome {
            Ok(_) => {
                generated = generated + 1;
            },
            Err(err) => {
                let ghost before = failures@;
                failures.push((component_name, err));
                assert(failures@[before.len() as int].0@ == name);
            },
        }
        proof {
            lemma_components_registered_step(*spec, *config, *object_database, i as int);
            lemma_empty_reported_kept(*spec, *config, db_start, *object_database, failures_start, failures@, i - 1);
            lemma_empty_reported_step(*spec, *config, *object_database, failures@, i as int);
        }
    }
    GenerationReport { generated, skipped, failures }
}

/// An operation that models without error: it has an id, its statuses are named, its query
/// parameters resolve, and its body and, for a streaming one, its `200` response are usable.
pub open spec fn operation_succeeds(spec: SpecDocument, config: Config, op: Operation) -> bool {
    &&& op.operation_id is Some
    &&& all_statuses_named(config.name_mapping, op.responses@)
    &&& queries_resolve(spec, op.parameters@)
    &&& match op.server_stream {
        StreamExtension::Flag(true) => (match op.request_body {
            Some(b) => b is Ok,
            None => true,
        }) && ok_response_is_json(spec, op.responses@),
        StreamExtension::Invalid => false,
        _ => match op.request_body {
            Some(b) => request_body_resolves(spec, b),
            None => true,
        },
    }
}

/// Whether the operation asks for a streaming connection.
pub open spec fn streams(operation: Operation) -> bool {
    operation.server_stream == StreamExtension::Flag(true)
}

/// Models one operation: a streaming one where its extension flag says so, else an ordinary
/// one. An operation without `operationId`, or whose flag is not a boolean, is rejected.
pub fn generate_path_code(
    spec: &SpecDocument,
    config: &Config,
    method: Method,
    path: &str,
    operation: &Operation,
    object_database: &mut ObjectDatabase,
    path_database: &mut PathDatabase,
) -> (r: Result<String, GeneratorError>)
    ensures
        db_extends(*old(object_database), *final(object_database)),
        operation.operation_id is None ==> (r matches Err(e) && e is MissingIdError),
        operation.operation_id is Some && operation.server_stream == StreamExtension::Invalid ==> (r matches Err(e)
            && e is InvalidValueError),
        r is Err ==> path_entries(*final(path_database)) == path_entries(*old(path_database)),
        r matches Ok(n) ==> operation.operation_id matches Some(id) && n@ == module_name_of(config.name_mapping, id@)
            && path_entries(*final(path_database)).contains_key(n@) && path_entries(*final(path_database)).remove(n@)
            == path_entries(*old(path_database)).remove(n@) && models_call(
            path_entries(*final(path_database))[n@],
            n@,
            if streams(*operation) {
                Method::GET
            } else {
                method
            },
            path@,
            streams(*operation),
        ),
        operation_succeeds(*spec, *config, *operation) ==> r is Ok,
{
    if operation.operation_id.is_none() {
        return Err(GeneratorError::MissingIdError(path.to_owned(), method.to_string()));
    }
    match operation.server_stream {
        StreamExtension::Invalid => Err(GeneratorError::InvalidValueError("x-serverstream".to_owned())),
        StreamExtension::Flag(true) => match websocket_request::generate_operation(
            spec,
            &config.name_mapping,
            path,
            operation,
            object_database,
            path_database,
        ) {
            Ok(name) => Ok(name),
            Err(err) => Err(GeneratorError::CodeGenerationError("websocket".to_owned(), err.message())),
        },
        _ => default_request::generate_operation(
            spec,
            &config.name_mapping,
            method,
            path,
            operation,
            object_database,
            path_database,
        ),
    }
}

/// An operation that can be modeled at all: it has an id and no invalid stream flag.
pub open spec fn operation_possible(op: Operation) -> bool {
    op.operation_id is Some && op.server_stream != StreamExtension::Invalid
}

/// How many of the operations can be modeled at all.
pub open spec fn possible_operations(ops: Seq<(Method, Operation)>) -> nat
    decreases ops.len(),
{
    if ops.len() == 0 {
        0
    } else {
        possible_operations(ops.drop_last()) + if operation_possible(ops.last().1) {
            1nat
        } else {
            0nat
        }
    }
}

/// How many operations of the first `n` URL templates in scope can be modeled at all.
pub open spec fn possible_in_scope(spec: SpecDocument, config: Config, n: int) -> nat
    decreases n,
{
    if n <= 0 {
        0
    } else {
        possible_in_scope(spec, config, n - 1) + if path_in_scope(spec, config, n - 1) {
            possible_operations(spec.paths@[n - 1].1.operations@)
        } else {
            0nat
        }
    }
}

/// How many of the operations meet the success condition.
pub open spec fn succeeding_operations(spec: SpecDocument, config: Config, ops: Seq<(Method, Operation)>) -> nat
    decreases ops.len(),
{
    if ops.len() == 0 {
        0
    } else {
        succeeding_operations(spec, config, ops.drop_last()) + if operation_succeeds(spec, config, ops.last().1) {
            1nat
        } else {
            0nat
        }
    }
}

/// How many operations of the first `n` URL templates in scope meet the success condition.
pub open spec fn succeeding_in_scope(spec: SpecDocument, config: Config, n: int) -> nat
    decreases n,
{
    if n <= 0 {
        0
    } else {
        succeeding_in_scope(spec, config, n - 1) + if path_in_scope(spec, config, n - 1) {
            succeeding_operations(spec, config, spec.paths@[n - 1].1.operations@)
        } else {
            0nat
        }
    }
}

/// The URL template at index `a` is not ignored.
pub open spec fn path_in_scope(spec: SpecDocument, config: Config, a: int) -> bool {
    !views(config.ignore.paths@).contains(spec.paths@[a].0@)
}

/// An operation that models without error has an entry under its converted id.
pub open spec fn modeled(spec: SpecDocument, config: Config, db: PathDatabase, op: Operation) -> bool {
    operation_succeeds(spec, config, op) ==> path_entries(db).contains_key(
        module_name_of(config.name_mapping, op.operation_id->Some_0@),
    )
}

/// The key is the converted id of an operation of a URL template that is not ignored.
pub open spec fn key_of_operation(spec: SpecDocument, config: Config, key: Seq<char>) -> bool {
    exists|a: int, k: int|
        0 <= a < spec.paths@.len() && path_in_scope(spec, config, a) && 0 <= k < spec.paths@[a].1.operations@.len()
            && (#[trigger] spec.paths@[a].1.operations@[k]).1.operation_id is Some && module_name_of(
            config.name_mapping,
            spec.paths@[a].1.operations@[k].1.operation_id->Some_0@,
        ) == key
}

/// Every key of the second path database that the first lacks is the converted id of an
/// operation in scope.
pub open spec fn new_keys_from_operations(spec: SpecDocument, config: Config, a: PathDatabase, b: PathDatabase) -> bool {
    forall|key: Seq<char>| #[trigger] path_entries(b).contains_key(key) ==> path_entries(a).contains_key(key)
        || key_of_operation(spec, config, key)
}

/// Every key of the first path database is a key of the second.
pub open spec fn path_keys_kept(a: PathDatabase, b: PathDatabase) -> bool {
    forall|k: Seq<char>| #[trigger] path_entries(a).contains_key(k) ==> path_entries(b).contains_key(k)
}

proof fn lemma_path_keys_kept(a: PathDatabase, b: PathDatabase, n: Seq<char>)
    requires
        path_entries(b).contains_key(n),
        path_entries(b).remove(n) == path_entries(a).remove(n),
    ensures
        path_keys_kept(a, b),
{
    assert forall|k: Seq<char>| #[trigger] path_entries(a).contains_key(k) implies path_entries(b).contains_key(k) by {
        if k != n {
            assert(path_entries(a).remove(n).contains_key(k));
        }
    }
}

/// Models every operation of every URL template that is not ignored; an operation that
/// fails is recorded and passed over, and its siblings are still modeled. Each operation
/// without `operationId` is reported as a `MissingIdError` under its URL template, and each
/// operation that models without error has an entry in the path database. `generated` counts
/// the operations that were modeled.
pub fn generate_inner_paths(
    spec: &SpecDocument,
    config: &Config,
    object_database: &mut ObjectDatabase,
    path_database: &mut PathDatabase,
) -> (r: GenerationReport)
    ensures
        db_extends(*old(object_database), *final(object_database)),
        path_keys_kept(*old(path_database), *final(path_database)),
        new_keys_from_operations(*spec, *config, *old(path_database), *final(path_database)),
        operations_in_scope(*spec, *config, spec.paths@.len() as int) < u64::MAX ==> r.generated + r.failures@.len()
            == operations_in_scope(*spec, *config, spec.paths@.len() as int),
        operations_in_scope(*spec, *config, spec.paths@.len() as int) < u64::MAX ==> succeeding_in_scope(
            *spec,
            *config,
            spec.paths@.len() as int,
        ) <= r.generated,
        r.generated <= possible_in_scope(*spec, *config, spec.paths@.len() as int),
        forall|i: int, k: int|
            0 <= i < spec.paths@.len() && path_in_scope(*spec, *config, i) && 0 <= k < spec.paths@[i].1.operations@.len()
                && (#[trigger] spec.paths@[i].1.operations@[k]).1.operation_id is None ==> missing_id_reported(
                r.failures@,
                spec.paths@[i].0@,
            ),
        forall|i: int, k: int|
            0 <= i < spec.paths@.len() && path_in_scope(*spec, *config, i) && 0 <= k < spec.paths@[i].1.operations@.len()
                ==> modeled(*spec, *config, *final(path_database), (#[trigger] spec.paths@[i].1.operations@[k]).1),
{
    let mut generated: u64 = 0;
    let mut failures: Vec<(String, GeneratorError)> = Vec::new();
    let mut i: usize = 0;
    while i < spec.paths.len()
        invariant
            i <= spec.paths@.len(),
            db_extends(*old(object_database), *object_database),
            path_keys_kept(*old(path_database), *path_database),
            new_keys_from_operations(*spec, *config, *old(path_database), *path_database),
            operations_in_scope(*spec, *config, spec.paths@.len() as int) < u64::MAX ==> generated + failures@.len()
                == operations_in_scope(*spec, *config, i as int),
            operations_in_scope(*spec, *config, spec.paths@.len() as int) < u64::MAX ==> succeeding_in_scope(
                *spec,
                *config,
                i as int,
            ) <= generated,
            generated <= possible_in_scope(*spec, *config, i as int),
            forall|a: int, k: int|
                0 <= a < i && path_in_scope(*spec, *config, a) && 0 <= k < spec.paths@[a].1.operations@.len()
                    && (#[trigger] spec.paths@[a].1.operations@[k]).1.operation_id is None ==> missing_id_reported(
                    failures@,
                    spec.paths@[a].0@,
                ),
            forall|a: int, k: int|
                0 <= a < i && path_in_scope(*spec, *config, a) && 0 <= k < spec.paths@[a].1.operations@.len()
                    ==> modeled(*spec, *config, *path_database, (#[trigger] spec.paths@[a].1.operations@[k]).1),
        decreases spec.paths@.len() - i,
    {
        proof {
            lemma_operations_in_scope_monotone(*spec, *config, i + 1, spec.paths@.len() as int);
        }
        let (name, path_item) = (&spec.paths[i].0, &spec.paths[i].1);
        if config.ignore.path_ignored(name.as_str()) {
            i = i + 1;
            continue;
        }
        let ghost failures_before = failures@;
        let ghost count_before = generated + failures@.len();
        let ghost generated_before = generated;
        let ghost db_paths_before = *path_database;
        let mut k: usize = 0;
        while k < path_item.operations.len()
            invariant
                i < spec.paths@.len(),
                name == spec.paths@[i as int].0,
                path_item == spec.paths@[i as int].1,
                path_in_scope(*spec, *config, i as int),
                k <= path_item.operations@.len(),
                db_extends(*old(object_database), *object_database),
                path_keys_kept(*old(path_database), *path_database),
                new_keys_from_operations(*spec, *config, *old(path_database), *path_database),
                path_keys_kept(db_paths_before, *path_database),
                failures_before.len() <= failures@.len(),
                forall|j: int| 0 <= j < failures_before.len() ==> failures@[j] == failures_before[j],
                count_before + path_item.operations@.len() == operations_in_scope(*spec, *config, i + 1)
                    || operations_in_scope(*spec, *config, spec.paths@.len() as int) >= u64::MAX,
                operations_in_scope(*spec, *config, i + 1) <= operations_in_scope(*spec, *config, spec.paths@.len() as int),
                operations_in_scope(*spec, *config, spec.paths@.len() as int) < u64::MAX ==> generated + failures@.len()
                    == count_before + k,
                operations_in_scope(*spec, *config, spec.paths@.len() as int) < u64::MAX ==> generated_before
                    + succeeding_operations(*spec, *config, path_item.operations@.take(k as int)) <= generated,
                operations_in_scope(*spec, *config, spec.paths@.len() as int) < u64::MAX ==> succeeding_in_scope(
                    *spec,
                    *config,
                    i as int,
                ) <= generated_before,
                generated_before <= possible_in_scope(*spec, *config, i as int),
                generated <= generated_before + possible_operations(path_item.operations@.take(k as int)),
                forall|k2: int|
                    0 <= k2 < k && (#[trigger] path_item.operations@[k2]).1.operation_id is None ==> missing_id_reported(
                        failures@,
                        name@,
                    ),
                forall|k2: int| 0 <= k2 < k ==> modeled(*spec, *config, *path_database, (#[trigger] path_item.operations@[k2]).1),
            decreases path_item.operations@.len() - k,
        {
            let (method, operation) = (path_item.operations[k].0, &path_item.operations[k].1);
            assert(path_item.operations@.take(k + 1).drop_last() =~= path_item.operations@.take(k as int));
            assert(path_item.operations@.take(k + 1).last() == path_item.operations@[k as int]);
            let ghost db_before = *object_database;
            let ghost paths_before = *path_database;
            let outcome = generate_path_code(
                spec,
                config,
                method,
                name.as_str(),
                operation,
                object_database,
                path_database,
            );
            proof {
                vstd::map_lib::lemma_submap_of_trans(
                    object_entries(*old(object_database)),
                    object_entries(db_before),
                    object_entries(*object_database),
                );
                if outcome is Ok {
                    lemma_path_keys_kept(paths_before, *path_database, outcome->Ok_0@);
                    let n = outcome->Ok_0@;
                    assert(path_item.operations@[k as int] == spec.paths@[i as int].1.operations@[k as int]);
                    assert(key_of_operation(*spec, *config, n));
                    assert forall|key: Seq<char>| #[trigger] path_entries(*path_database).contains_key(key) implies path_entries(
                        *old(path_database),
                    ).contains_key(key) || key_of_operation(*spec, *config, key) by {
                        if key != n {
                            assert(path_entries(*path_database).remove(n).contains_key(key));
                            assert(path_entries(paths_before).contains_key(key));
                        }
                    }
                }
                assert(path_keys_kept(paths_before, *path_database));
                assert forall|k2: int| 0 <= k2 < k + 1 implies modeled(
                    *spec,
                    *config,
                    *path_database,
                    (#[trigger] path_item.operations@[k2]).1,
                ) by {
                    if k2 < k {
                        assert(modeled(*spec, *config, paths_before, path_item.operations@[k2].1));
                    }
                }
            }
            match outcome {
                Ok(_) => {
                    if generated < u64::MAX {
                        generated = generated + 1;
                    }
                },
                Err(err) => {
                    let ghost before = failures@;
                    failures.push((name.clone(), err));
                    assert(failures@[before.len() as int].0@ == name@);
                    assert forall|k2: int|
                        0 <= k2 <= k && (#[trigger] path_item.operations@[k2]).1.operation_id is None implies missing_id_reported(
                            failures@,
                            name@,
                        ) by {
                        if k2 < k {
                            let j = choose|j: int| 0 <= j < before.len() && (#[trigger] before[j]).0@ == name@
                                && before[j].1 is MissingIdError;
                            assert(failures@[j] == before[j]);
                        } else {
                            assert(failures@[before.len() as int].1 is MissingIdError);
                        }
                    }
                    assert forall|j: int| 0 <= j < failures_before.len() implies failures@[j] == failures_before[j] by {
                        assert(failures@[j] == before[j]);
                    }
                },
            }
            k = k + 1;
        }
        assert(path_item.operations@.take(path_item.operations@.len() as int) =~= path_item.operations@);
        proof {
            assert forall|a: int, k2: int|
                0 <= a < i + 1 && path_in_scope(*spec, *config, a) && 0 <= k2 < spec.paths@[a].1.operations@.len()
                    && (#[trigger] spec.paths@[a].1.operations@[k2]).1.operation_id is None implies missing_id_reported(
                    failures@,
                    spec.paths@[a].0@,
                ) by {
                if a < i {
                    let j = choose|j: int| 0 <= j < failures_before.len() && (#[trigger] failures_before[j]).0@
                        == spec.paths@[a].0@ && failures_before[j].1 is MissingIdError;
                    assert(failures@[j] == failures_before[j]);
                } else {
                    assert(path_item.operations@[k2] == spec.paths@[a].1.operations@[k2]);
                }
            }
            assert forall|a: int, k2: int|
                0 <= a < i + 1 && path_in_scope(*spec, *config, a) && 0 <= k2 < spec.paths@[a].1.operations@.len()
                    implies modeled(*spec, *config, *path_database, (#[trigger] spec.paths@[a].1.operations@[k2]).1) by {
                if a < i {
                    assert(modeled(*spec, *config, db_paths_before, spec.paths@[a].1.operations@[k2].1));
                } else {
                    assert(path_item.operations@[k2] == spec.paths@[a].1.operations@[k2]);
                }
            }
        }
        i = i + 1;
    }
    GenerationReport { generated, skipped: 0, failures }
}

proof fn lemma_operations_in_scope_monotone(spec: SpecDocument, config: Config, a: int, b: int)
    requires
        a <= b,
    ensures
        operations_in_scope(spec, config, a) <= operations_in_scope(spec, config, b),
    decreases b - a,
{
    if a < b {
        lemma_operations_in_scope_monotone(spec, config, a, b - 1);
    }
}

} // verus!
