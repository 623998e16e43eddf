//! The API description as the resolver reads it: schemas, references, paths and operations.
use crate::errors::GeneratorError;
use crate::name_mapping::{key_index, key_position};
use crate::text::{split, split_on, str_eq, views};
use crate::types::Method;
use vstd::prelude::*;
use vstd::string::*;

verus! {

#[derive(Clone, Copy, Debug, PartialEq, Eq, Structural)]
pub enum SchemaType {
    Boolean,
    Integer,
    Number,
    String,
    Array,
    Object,
    Null,
}

#[derive(Clone, Debug)]
pub enum SchemaTypeSet {
    Single(SchemaType),
    Multiple(Vec<SchemaType>),
}

/// A schema node.
#[derive(Debug)]
pub struct ObjectSchema {
    pub title: Option<String>,
    pub description: Option<String>,
    pub schema_type: Option<SchemaTypeSet>,
    /// Whether the schema declares a `const` value.
    pub has_const: bool,
    pub any_of: Vec<SchemaOrRef>,
    pub one_of: Vec<SchemaOrRef>,
    pub all_of: Vec<SchemaOrRef>,
    /// Declared properties, in document order.
    pub properties: Vec<(String, SchemaOrRef)>,
    pub required: Vec<String>,
    pub items: Option<Box<SchemaOrRef>>,
    /// An example value, as JSON text.
    pub example: Option<String>,
}

/// A schema given in place, or a `$ref` to a named one.
#[derive(Debug)]
pub enum SchemaOrRef {
    Ref(String),
    Object(Box<ObjectSchema>),
}

#[derive(Clone, Copy, Debug, PartialEq, Eq, Structural)]
pub enum ParameterIn {
    Path,
    Query,
    Header,
    Cookie,
}

#[derive(Debug)]
pub struct Parameter {
    pub name: String,
    pub location: ParameterIn,
    pub required: Option<bool>,
    pub description: Option<String>,
    pub example: Option<String>,
    pub schema: Option<SchemaOrRef>,
}

/// A parameter, or the reason why its reference could not be resolved.
#[derive(Debug)]
pub enum ParameterOrRef {
    Parameter(Parameter),
    Unresolved(String),
}

#[derive(Debug)]
pub struct MediaType {
    pub schema: Option<SchemaOrRef>,
}

/// Bodies by content type, in document order.
#[derive(Debug)]
pub struct RequestBody {
    pub content: Vec<(String, MediaType)>,
}

#[derive(Debug)]
pub struct Response {
    pub content: Vec<(String, MediaType)>,
}

/// The value of the vendor extension that asks for a streaming operation.
#[derive(Clone, Copy, Debug, PartialEq, Eq, Structural)]
pub enum StreamExtension {
    Absent,
    Flag(bool),
    /// Present with a value that is not a boolean.
    Invalid,
}

#[derive(Debug)]
pub struct Operation {
    pub operation_id: Option<String>,
    pub description: Option<String>,
    pub summary: Option<String>,
    pub parameters: Vec<ParameterOrRef>,
    /// The request body, or the reason why its reference could not be resolved.
    pub request_body: Option<Result<RequestBody, String>>,
    /// Responses by status-code key, in document order.
    pub responses: Vec<(String, Response)>,
    pub server_stream: StreamExtension,
}

/// The operations of one URL template, in the order get, post, delete, put, patch, options,
/// trace.
#[derive(Debug)]
pub struct PathItem {
    pub operations: Vec<(Method, Operation)>,
}

/// A parsed API description.
#[derive(Debug)]
pub struct SpecDocument {
    /// `components.schemas`, in document order.
    pub schemas: Vec<(String, SchemaOrRef)>,
    /// Operations by URL template, in document order.
    pub paths: Vec<(String, PathItem)>,
}

/// A schema with no type, no `const` and no `anyOf`, `oneOf` or `allOf` branches.
pub open spec fn schema_is_empty(s: ObjectSchema) -> bool {
    s.schema_type is None && !s.has_const && s.any_of@.len() == 0 && s.all_of@.len() == 0
        && s.one_of@.len() == 0
}

pub fn is_object_empty(object_schema: &ObjectSchema) -> (r: bool)
    ensures
        r == schema_is_empty(*object_schema),
{
    object_schema.schema_type.is_none() && !object_schema.has_const && object_schema.any_of.len()
        == 0 && object_schema.all_of.len() == 0 && object_schema.one_of.len() == 0
}

/// The definition path of the schemas under `components`.
pub open spec fn components_base_path() -> Seq<Seq<char>> {
    seq!["#"@, "components"@, "schemas"@]
}

pub fn get_components_base_path() -> (r: Vec<String>)
    ensures
        views(r@) == components_base_path(),
{
    let r = vec!["#".to_owned(), "components".to_owned(), "schemas".to_owned()];
    assert(views(r@) =~= components_base_path());
    r
}

/// The definition path of a reference target: its `/` separated segments without the last.
pub fn get_base_path_to_ref(ref_path: &str) -> (r: Result<Vec<String>, GeneratorError>)
    ensures
        split_on(ref_path@, "/"@).len() < 4 <==> r is Err,
        r matches Err(e) ==> e is ResolveError,
        r matches Ok(v) ==> views(v@) == split_on(ref_path@, "/"@).drop_last(),
{
    proof {
        reveal_strlit("/");
    }
    let mut segments = split(ref_path, "/");
    if segments.len() < 4 {
        let mut m = "Expected 4 path segments in ".to_owned();
        m.append(ref_path);
        return Err(GeneratorError::ResolveError(m));
    }
    let ghost before = segments@;
    segments.pop();
    assert(views(segments@) =~= views(before).drop_last());
    Ok(segments)
}

/// The component name a reference points at: the path must read `#/components/schemas/<name>`.
pub open spec fn ref_target(ref_path: Seq<char>) -> Option<Seq<char>> {
    let s = split_on(ref_path, "/"@);
    if s.len() == 4 && s[0] == "#"@ && s[1] == "components"@ && s[2] == "schemas"@ {
        Some(s[3])
    } else {
        None
    }
}

/// The schema a reference points at, following references between components at most
/// `fuel` times.
pub open spec fn resolved_ref_within(doc: SpecDocument, ref_path: Seq<char>, fuel: nat) -> Option<ObjectSchema>
    decreases fuel,
{
    match ref_target(ref_path) {
        Some(n) => match key_index(doc.schemas@, n) {
            Some(i) => match doc.schemas@[i as int].1 {
                SchemaOrRef::Object(b) => Some(*b),
                SchemaOrRef::Ref(p) => if fuel == 0 {
                    None
                } else {
                    resolved_ref_within(doc, p@, (fuel - 1) as nat)
                },
            },
            None => None,
        },
        None => None,
    }
}

/// The schema a reference points at: the component of that name, where a component that is
/// itself a reference is followed, at most once per component.
pub open spec fn resolved_ref(doc: SpecDocument, ref_path: Seq<char>) -> Option<ObjectSchema> {
    resolved_ref_within(doc, ref_path, doc.schemas@.len())
}

/// The schema that a schema-or-reference stands for.
pub open spec fn resolved(doc: SpecDocument, s: SchemaOrRef) -> Option<ObjectSchema> {
    match s {
        SchemaOrRef::Object(b) => Some(*b),
        SchemaOrRef::Ref(p) => resolved_ref(doc, p@),
    }
}

/// Looks up the component schema that a reference names.
pub fn resolve_ref<'a>(doc: &'a SpecDocument, ref_path: &str) -> (r: Result<&'a ObjectSchema, GeneratorError>)
    ensures
        match resolved_ref(*doc, ref_path@) {
            Some(s) => r matches Ok(x) && *x == s,
            None => r matches Err(e) && e is ResolveError,
        },
{
    resolve_ref_within(doc, ref_path, doc.schemas.len())
}

fn resolve_ref_within<'a>(doc: &'a SpecDocument, ref_path: &str, fuel: usize) -> (r: Result<&'a ObjectSchema, GeneratorError>)
    ensures
        match resolved_ref_within(*doc, ref_path@, fuel as nat) {
            Some(s) => r matches Ok(x) && *x == s,
            None => r matches Err(e) && e is ResolveError,
        },
    decreases fuel,
{
    proof {
        reveal_strlit("/");
    }
    let segments = split(ref_path, "/");
    if segments.len() != 4 || !str_eq(segments[0].as_str(), "#") || !str_eq(
        segments[1].as_str(),
        "components",
    ) || !str_eq(segments[2].as_str(), "schemas") {
        let mut m = "Unsupported reference ".to_owned();
        m.append(ref_path);
        return Err(GeneratorError::ResolveError(m));
    }
    assert(ref_target(ref_path@) == Some(segments@[3]@));
    match key_position(&doc.schemas, segments[3].as_str()) {
        Some(i) => match &doc.schemas[i].1 {
            SchemaOrRef::Object(b) => Ok(&**b),
            SchemaOrRef::Ref(next) => {
                if fuel == 0 {
                    let mut m = "Reference chain too long at ".to_owned();
                    m.append(ref_path);
                    return Err(GeneratorError::ResolveError(m));
                }
                resolve_ref_within(doc, next.as_str(), fuel - 1)
            },
        },
        None => {
            let mut m = "Unknown reference ".to_owned();
            m.append(ref_path);
            Err(GeneratorError::ResolveError(m))
        },
    }
}

/// The schema that a schema-or-reference stands for.
pub fn resolve_schema<'a>(doc: &'a SpecDocument, s: &'a SchemaOrRef) -> (r: Result<&'a ObjectSchema, GeneratorError>)
    ensures
        match resolved(*doc, *s) {
            Some(x) => r matches Ok(y) && *y == x,
            None => r matches Err(e) && e is ResolveError,
        },
{
    match s {
        SchemaOrRef::Object(b) => Ok(&**b),
        SchemaOrRef::Ref(p) => resolve_ref(doc, p.as_str()),
    }
}

} // verus!
