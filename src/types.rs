//! The intermediate representation: resolved types, objects and operations.
use crate::text::{contains, copy_text, occurs_in, split, split_on, views};
use vstd::prelude::*;
use vstd::string::*;

verus! {

/// A module path and the symbol imported from it.
#[derive(Clone, Debug)]
pub struct ModuleInfo {
    pub name: String,
    pub path: String,
}

/// The import path after the separators of a qualified name have been added, left to right,
/// each unless the path already holds it.
pub open spec fn module_path_from(path: Seq<char>, seps: Seq<Seq<char>>) -> Seq<char>
    decreases seps.len(),
{
    if seps.len() == 0 {
        path
    } else {
        let p = module_path_from(path, seps.drop_last());
        let sep = seps.last();
        if occurs_in(p, "::"@ + sep) {
            p
        } else if p.len() == 0 {
            sep
        } else {
            p + "::"@ + sep
        }
    }
}

/// The (name, path) pair that `ModuleInfo::new` builds.
pub open spec fn module_info_of(path: Seq<char>, name: Seq<char>) -> (Seq<char>, Seq<char>) {
    if occurs_in(name, "::"@) {
        let parts = split_on(name, "::"@);
        (parts.last(), module_path_from(path, parts.drop_last()))
    } else {
        (name, path)
    }
}

/// The import statement of a module.
pub open spec fn use_statement(path: Seq<char>, name: Seq<char>) -> Seq<char> {
    if path.len() == 0 {
        "use "@ + name + ";"@
    } else {
        "use "@ + path + "::"@ + name + ";"@
    }
}

impl ModuleInfo {
    /// A module for a possibly qualified name: the last piece of the name is the symbol and
    /// the pieces before it are added to the path.
    pub fn new(path: &str, name: &str) -> (r: Self)
        ensures
            (r.name@, r.path@) == module_info_of(path@, name@),
    {
        proof {
            reveal_strlit("::");
        }
        if !contains(name, "::") {
            return ModuleInfo { name: name.to_owned(), path: path.to_owned() };
        }
        let parts = split(name, "::");
        proof {
            crate::text::lemma_split_nonempty(name@, "::"@, Seq::empty());
        }
        let n = parts.len() - 1;
        let mut final_path = path.to_owned();
        let mut i: usize = 0;
        while i < n
            invariant
                n == parts@.len() - 1,
                i <= n,
                final_path@ == module_path_from(path@, views(parts@).take(i as int)),
            decreases n - i,
        {
            let ghost pre = views(parts@).take(i as int);
            assert(views(parts@).take(i + 1).drop_last() =~= pre);
            let sep = parts[i].as_str();
            let mut probe = "::".to_owned();
            probe.append(sep);
            if !contains(final_path.as_str(), probe.as_str()) {
                if final_path.unicode_len() > 0 {
                    final_path.append("::");
                }
                final_path.append(sep);
            }
            i = i + 1;
        }
        assert(views(parts@).take(n as int) =~= views(parts@).drop_last());
        ModuleInfo { name: parts[n].clone(), path: final_path }
    }

    pub fn to_use(&self) -> (r: String)
        ensures
            r@ == use_statement(self.path@, self.name@),
    {
        let mut out = "use ".to_owned();
        if self.path.unicode_len() == 0 {
            out.append(self.name.as_str());
            out.append(";");
            return out;
        }
        out.append(self.path.as_str());
        out.append("::");
        out.append(self.name.as_str());
        out.append(";");
        out
    }
}

/// A resolved type: a target-language type expression and where it comes from.
#[derive(Clone, Debug)]
pub struct TypeDefinition {
    pub name: String,
    pub module: Option<ModuleInfo>,
    pub description: Option<String>,
    /// An example value, as JSON text.
    pub example: Option<String>,
}

/// A property of a struct.
#[derive(Clone, Debug)]
pub struct PropertyDefinition {
    pub name: String,
    /// The name on the wire.
    pub real_name: String,
    pub property_type: String,
    pub module: Option<ModuleInfo>,
    pub required: bool,
    pub description: Option<String>,
    pub example: Option<String>,
}

#[derive(Clone, Debug)]
pub enum ObjectDefinition {
    Struct(StructDefinition),
    Enum(EnumDefinition),
    Primitive(PrimitiveDefinition),
}

#[derive(Clone, Debug)]
pub struct EnumValue {
    pub name: String,
    pub value_type: TypeDefinition,
}

/// An enum; no two values have the same name.
#[derive(Clone, Debug)]
pub struct EnumDefinition {
    pub name: String,
    pub used_modules: Vec<ModuleInfo>,
    pub values: Vec<EnumValue>,
    pub description: Option<String>,
}

/// A struct; its properties keep the order in which they were added. Structs built from
/// schemas have no two properties of the same name (see `unique_property_names`).
#[derive(Clone, Debug)]
pub struct StructDefinition {
    pub package: String,
    pub name: String,
    pub used_modules: Vec<ModuleInfo>,
    pub properties: Vec<PropertyDefinition>,
    /// Qualified names of nested objects, which the object database holds.
    pub local_objects: Vec<String>,
    pub description: Option<String>,
}

/// A type alias.
#[derive(Clone, Debug)]
pub struct PrimitiveDefinition {
    pub name: String,
    pub primitive_type: TypeDefinition,
    pub description: Option<String>,
}

#[derive(Clone, Debug)]
pub enum TransferMediaType {
    /// A JSON body; absent where the body schema is empty.
    ApplicationJson(Option<TypeDefinition>),
    TextPlain,
}

/// The bodies of a response, by content type, each content type once.
#[derive(Clone, Debug)]
pub struct ResponseEntity {
    pub canonical_status_code: String,
    pub content: Vec<(String, TransferMediaType)>,
}

/// The bodies of a request, by content type; no content type twice.
#[derive(Clone, Debug)]
pub struct RequestEntity {
    pub content: Vec<(String, TransferMediaType)>,
}

#[derive(Clone, Debug)]
pub struct QueryParameters {
    pub query_struct: StructDefinition,
    pub query_struct_variable_name: String,
    pub unroll_query_parameters_code: String,
}

#[derive(Clone, Debug)]
pub struct PathParameters {
    pub parameters_struct_variable_name: String,
    pub parameters_struct: StructDefinition,
    pub path_format_string: String,
}

#[derive(Clone, Copy, Debug, PartialEq, Eq, Structural)]
pub enum Method {
    GET,
    POST,
    PUT,
    DELETE,
    PATCH,
    HEAD,
    OPTIONS,
    TRACE,
}

pub open spec fn method_text(m: Method) -> Seq<char> {
    match m {
        Method::GET => "GET"@,
        Method::POST => "POST"@,
        Method::PUT => "PUT"@,
        Method::DELETE => "DELETE"@,
        Method::PATCH => "PATCH"@,
        Method::HEAD => "HEAD"@,
        Method::OPTIONS => "OPTIONS"@,
        Method::TRACE => "TRACE"@,
    }
}

impl Method {
    pub fn to_string(&self) -> (r: String)
        ensures
            r@ == method_text(*self),
    {
        match self {
            Method::GET => "GET".to_owned(),
            Method::POST => "POST".to_owned(),
            Method::PUT => "PUT".to_owned(),
            Method::DELETE => "DELETE".to_owned(),
            Method::PATCH => "PATCH".to_owned(),
            Method::HEAD => "HEAD".to_owned(),
            Method::OPTIONS => "OPTIONS".to_owned(),
            Method::TRACE => "TRACE".to_owned(),
        }
    }
}

/// One modeled operation.
#[derive(Clone, Debug)]
pub struct PathDefinition {
    pub package: String,
    pub name: String,
    pub method: Method,
    pub url: String,
    pub response_name: String,
    pub used_modules: Vec<ModuleInfo>,
    pub request_body: Option<ObjectDefinition>,
    pub request_entity: Option<RequestEntity>,
    /// Qualified names of nested objects, which the object database holds.
    pub local_objects: Vec<String>,
    pub description: String,
    /// Responses by status-code key, in document order.
    pub response_entities: Vec<(String, ResponseEntity)>,
    pub path_parameters: PathParameters,
    pub query_parameters: QueryParameters,
    /// For a streaming operation, the persistent-connection type that replaces the single
    /// response.
    pub stream: Option<StreamDefinition>,
}

/// A persistent connection that yields decoded messages one at a time.
#[derive(Clone, Debug)]
pub struct StreamDefinition {
    pub struct_name: String,
    pub message_type: TypeDefinition,
    /// The source of the connection type, with its `read` and `close` operations.
    pub source: String,
}

/// The name under which an object is registered.
pub open spec fn object_name_of(o: ObjectDefinition) -> Seq<char> {
    match o {
        ObjectDefinition::Struct(s) => s.package@ + "::"@ + s.name@,
        ObjectDefinition::Enum(e) => e.name@,
        ObjectDefinition::Primitive(p) => p.name@,
    }
}

impl StructDefinition {
    pub fn id(&self) -> (r: String)
        ensures
            r@ == self.package@ + "::"@ + self.name@,
    {
        let mut out = self.package.clone();
        out.append("::");
        out.append(self.name.as_str());
        out
    }
}

impl ObjectDefinition {
    pub fn name(&self) -> (r: String)
        ensures
            r@ == match self {
                ObjectDefinition::Struct(s) => s.name@,
                ObjectDefinition::Enum(e) => e.name@,
                ObjectDefinition::Primitive(p) => p.name@,
            },
    {
        match self {
            ObjectDefinition::Struct(s) => s.name.clone(),
            ObjectDefinition::Enum(e) => e.name.clone(),
            ObjectDefinition::Primitive(p) => p.name.clone(),
        }
    }
}

pub fn get_object_name(object_definition: &ObjectDefinition) -> (r: String)
    ensures
        r@ == object_name_of(*object_definition),
{
    match object_definition {
        ObjectDefinition::Struct(s) => s.id(),
        ObjectDefinition::Enum(e) => e.name.clone(),
        ObjectDefinition::Primitive(p) => p.name.clone(),
    }
}


impl ModuleInfo {
    /// A copy equal to this one.
    pub fn copied(&self) -> (r: Self)
        ensures
            r == *self,
    {
        ModuleInfo { name: self.name.clone(), path: self.path.clone() }
    }
}

fn copy_module(o: &Option<ModuleInfo>) -> (r: Option<ModuleInfo>)
    ensures
        r == *o,
{
    match o {
        Some(m) => Some(m.copied()),
        None => None,
    }
}

impl PropertyDefinition {
    /// A copy equal to this one.
    pub fn copied(&self) -> (r: Self)
        ensures
            r == *self,
    {
        PropertyDefinition {
            name: self.name.clone(),
            real_name: self.real_name.clone(),
            property_type: self.property_type.clone(),
            module: copy_module(&self.module),
            required: self.required,
            description: copy_text(&self.description),
            example: copy_text(&self.example),
        }
    }
}

impl TypeDefinition {
    /// A copy equal to this one.
    pub fn copied(&self) -> (r: Self)
        ensures
            r == *self,
    {
        TypeDefinition {
            name: self.name.clone(),
            module: copy_module(&self.module),
            description: copy_text(&self.description),
            example: copy_text(&self.example),
        }
    }
}

/// The modules that the properties import, in order.
pub open spec fn property_modules(ps: Seq<PropertyDefinition>) -> Seq<ModuleInfo>
    decreases ps.len(),
{
    if ps.len() == 0 {
        Seq::empty()
    } else {
        match ps.last().module {
            Some(m) => property_modules(ps.drop_last()).push(m),
            None => property_modules(ps.drop_last()),
        }
    }
}

/// The modules that the enum values' types import, in order.
pub open spec fn value_modules(vs: Seq<EnumValue>) -> Seq<ModuleInfo>
    decreases vs.len(),
{
    if vs.len() == 0 {
        Seq::empty()
    } else {
        match vs.last().value_type.module {
            Some(m) => value_modules(vs.drop_last()).push(m),
            None => value_modules(vs.drop_last()),
        }
    }
}

/// A property whose value may be left out: optional, or a sequence.
pub open spec fn defaults(p: PropertyDefinition) -> bool {
    !p.required || crate::text::is_prefix("Vec<"@, p.property_type@)
}

/// The properties with the given `required` flag, in order.
pub open spec fn with_required(ps: Seq<PropertyDefinition>, required: bool) -> Seq<PropertyDefinition> {
    ps.filter(|p: PropertyDefinition| p.required == required)
}

fn push_with_required(out: &mut Vec<PropertyDefinition>, ps: &Vec<PropertyDefinition>, required: bool)
    ensures
        final(out)@ == old(out)@ + with_required(ps@, required),
{
    let mut i: usize = 0;
    while i < ps.len()
        invariant
            i <= ps@.len(),
            out@ == old(out)@ + with_required(ps@.take(i as int), required),
        decreases ps@.len() - i,
    {
        let ghost pre = ps@.take(i as int);
        assert(ps@.take(i + 1).drop_last() =~= pre);
        reveal(Seq::filter);
        if ps[i].required == required {
            out.push(ps[i].copied());
        }
        assert(out@ =~= old(out)@ + with_required(ps@.take(i + 1), required));
        i = i + 1;
    }
    assert(ps@.take(ps@.len() as int) =~= ps@);
}

impl StructDefinition {
    /// Whether every property may be left out, so that the struct can have a default.
    pub fn all_properties_default(&self) -> (r: bool)
        ensures
            r == forall|k: int| 0 <= k < self.properties@.len() ==> defaults(#[trigger] self.properties@[k]),
    {
        let mut i: usize = 0;
        while i < self.properties.len()
            invariant
                i <= self.properties@.len(),
                forall|k: int| 0 <= k < i ==> defaults(#[trigger] self.properties@[k]),
            decreases self.properties@.len() - i,
        {
            let p = &self.properties[i];
            if p.required && !crate::text::starts_with(p.property_type.as_str(), "Vec<") {
                return false;
            }
            i = i + 1;
        }
        true
    }

    /// The modules the struct uses, then those of its properties' types.
    pub fn get_required_modules(&self) -> (r: Vec<ModuleInfo>)
        ensures
            r@ == self.used_modules@ + property_modules(self.properties@),
    {
        let mut out: Vec<ModuleInfo> = Vec::new();
        let mut i: usize = 0;
        while i < self.used_modules.len()
            invariant
                i <= self.used_modules@.len(),
                out@ == self.used_modules@.take(i as int),
            decreases self.used_modules@.len() - i,
        {
            out.push(self.used_modules[i].copied());
            assert(out@ =~= self.used_modules@.take(i + 1));
            i = i + 1;
        }
        assert(self.used_modules@.take(self.used_modules@.len() as int) =~= self.used_modules@);
        let mut k: usize = 0;
        while k < self.properties.len()
            invariant
                k <= self.properties@.len(),
                out@ == self.used_modules@ + property_modules(self.properties@.take(k as int)),
            decreases self.properties@.len() - k,
        {
            assert(self.properties@.take(k + 1).drop_last() =~= self.properties@.take(k as int));
            if let Some(m) = &self.properties[k].module {
                out.push(m.copied());
            }
            assert(out@ =~= self.used_modules@ + property_modules(self.properties@.take(k + 1)));
            k = k + 1;
        }
        assert(self.properties@.take(self.properties@.len() as int) =~= self.properties@);
        out
    }
}

impl EnumDefinition {
    /// The modules the enum uses, then those of its values' types.
    pub fn get_required_modules(&self) -> (r: Vec<ModuleInfo>)
        ensures
            r@ == self.used_modules@ + value_modules(self.values@),
    {
        let mut out: Vec<ModuleInfo> = Vec::new();
        let mut i: usize = 0;
        while i < self.used_modules.len()
            invariant
                i <= self.used_modules@.len(),
                out@ == self.used_modules@.take(i as int),
            decreases self.used_modules@.len() - i,
        {
            out.push(self.used_modules[i].copied());
            assert(out@ =~= self.used_modules@.take(i + 1));
            i = i + 1;
        }
        assert(self.used_modules@.take(self.used_modules@.len() as int) =~= self.used_modules@);
        let mut k: usize = 0;
        while k < self.values.len()
            invariant
                k <= self.values@.len(),
                out@ == self.used_modules@ + value_modules(self.values@.take(k as int)),
            decreases self.values@.len() - k,
        {
            assert(self.values@.take(k + 1).drop_last() =~= self.values@.take(k as int));
            if let Some(m) = &self.values[k].value_type.module {
                out.push(m.copied());
            }
            assert(out@ =~= self.used_modules@ + value_modules(self.values@.take(k + 1)));
            k = k + 1;
        }
        assert(self.values@.take(self.values@.len() as int) =~= self.values@);
        out
    }
}

/// The properties of a request body, where it is a struct.
pub open spec fn body_properties(pd: PathDefinition) -> Seq<PropertyDefinition> {
    match pd.request_body {
        Some(ObjectDefinition::Struct(s)) => s.properties@,
        _ => Seq::empty(),
    }
}

/// The JSON response types, in order of responses and then of content types.
pub open spec fn response_types(entities: Seq<(String, ResponseEntity)>) -> Seq<TypeDefinition>
    decreases entities.len(),
{
    if entities.len() == 0 {
        Seq::empty()
    } else {
        response_types(entities.drop_last()) + content_types(entities.last().1.content@)
    }
}

pub open spec fn content_types(content: Seq<(String, TransferMediaType)>) -> Seq<TypeDefinition>
    decreases content.len(),
{
    if content.len() == 0 {
        Seq::empty()
    } else {
        match content.last().1 {
            TransferMediaType::ApplicationJson(Some(t)) => content_types(content.drop_last()).push(t),
            _ => content_types(content.drop_last()),
        }
    }
}

impl PathDefinition {
    /// The type of the request body, where it is a struct.
    pub fn get_request_type(&self) -> (r: Option<TypeDefinition>)
        ensures
            match self.request_body {
                Some(ObjectDefinition::Struct(s)) => r matches Some(t) && t.name@ == s.package@ + "::"@ + s.name@
                    && t.module is Some,
                _ => r is None,
            },
    {
        match &self.request_body {
            Some(ObjectDefinition::Struct(s)) => {
                let object_name = s.id();
                let example = if s.properties.len() > 0 {
                    copy_text(&s.properties[0].example)
                } else {
                    None
                };
                Some(
                    TypeDefinition {
                        module: Some(ModuleInfo::new(s.package.as_str(), object_name.as_str())),
                        name: object_name,
                        description: copy_text(&s.description),
                        example,
                    },
                )
            },
            _ => None,
        }
    }

    /// The properties of the request body, by name, where it is a struct.
    pub fn extract_body_properties(&self) -> (r: Vec<(String, PropertyDefinition)>)
        ensures
            r@.len() == body_properties(*self).len(),
            forall|k: int| 0 <= k < r@.len() ==> (#[trigger] r@[k]).1 == body_properties(*self)[k] && r@[k].0
                == r@[k].1.name,
    {
        let mut out: Vec<(String, PropertyDefinition)> = Vec::new();
        if let Some(ObjectDefinition::Struct(s)) = &self.request_body {
            let mut i: usize = 0;
            while i < s.properties.len()
                invariant
                    i <= s.properties@.len(),
                    out@.len() == i,
                    forall|k: int| 0 <= k < i ==> (#[trigger] out@[k]).1 == s.properties@[k] && out@[k].0
                        == out@[k].1.name,
                decreases s.properties@.len() - i,
            {
                let p = s.properties[i].copied();
                out.push((p.name.clone(), p));
                i = i + 1;
            }
        }
        out
    }

    fn properties_with(&self, required: bool) -> (r: Vec<PropertyDefinition>)
        ensures
            r@ == with_required(self.path_parameters.parameters_struct.properties@, required) + with_required(
                self.query_parameters.query_struct.properties@,
                required,
            ) + with_required(body_properties(*self), required),
    {
        let mut out: Vec<PropertyDefinition> = Vec::new();
        push_with_required(&mut out, &self.path_parameters.parameters_struct.properties, required);
        push_with_required(&mut out, &self.query_parameters.query_struct.properties, required);
        match &self.request_body {
            Some(ObjectDefinition::Struct(s)) => {
                push_with_required(&mut out, &s.properties, required);
            },
            _ => {
                assert(with_required(Seq::<PropertyDefinition>::empty(), required) =~= Seq::empty()) by {
                    reveal(Seq::filter);
                }
                assert(out@ =~= out@ + with_required(body_properties(*self), required));
            },
        }
        out
    }

    /// The required properties of the path parameters, then the query parameters, then the
    /// request body.
    pub fn get_required_properties(&self) -> (r: Vec<PropertyDefinition>)
        ensures
            r@ == with_required(self.path_parameters.parameters_struct.properties@, true) + with_required(
                self.query_parameters.query_struct.properties@,
                true,
            ) + with_required(body_properties(*self), true),
    {
        self.properties_with(true)
    }

    /// The optional properties of the path parameters, then the query parameters, then the
    /// request body.
    pub fn get_optional_properties(&self) -> (r: Vec<PropertyDefinition>)
        ensures
            r@ == with_required(self.path_parameters.parameters_struct.properties@, false) + with_required(
                self.query_parameters.query_struct.properties@,
                false,
            ) + with_required(body_properties(*self), false),
    {
        self.properties_with(false)
    }

    /// The type of the last JSON response body that has one.
    pub fn extract_response_type(&self) -> (r: Option<TypeDefinition>)
        ensures
            response_types(self.response_entities@).len() == 0 ==> r is None,
            response_types(self.response_entities@).len() > 0 ==> r == Some(response_types(self.response_entities@).last()),
    {
        let mut found: Option<TypeDefinition> = None;
        let mut i: usize = 0;
        while i < self.response_entities.len()
            invariant
                i <= self.response_entities@.len(),
                response_types(self.response_entities@.take(i as int)).len() == 0 ==> found is None,
                response_types(self.response_entities@.take(i as int)).len() > 0 ==> found == Some(
                    response_types(self.response_entities@.take(i as int)).last(),
                ),
            decreases self.response_entities@.len() - i,
        {
            let ghost pre = self.response_entities@.take(i as int);
            assert(self.response_entities@.take(i + 1).drop_last() =~= pre);
            let content = &self.response_entities[i].1.content;
            let mut j: usize = 0;
            while j < content.len()
                invariant
                    j <= content@.len(),
                    content == self.response_entities@[i as int].1.content,
                    (response_types(pre) + content_types(content@.take(j as int))).len() == 0 ==> found is None,
                    (response_types(pre) + content_types(content@.take(j as int))).len() > 0 ==> found == Some(
                        (response_types(pre) + content_types(content@.take(j as int))).last(),
                    ),
                decreases content@.len() - j,
            {
                assert(content@.take(j + 1).drop_last() =~= content@.take(j as int));
                if let TransferMediaType::ApplicationJson(Some(t)) = &content[j].1 {
                    found = Some(t.copied());
                }
                assert((response_types(pre) + content_types(content@.take(j + 1))) =~= (if let TransferMediaType::ApplicationJson(Some(t)) = content@[j as int].1 {
                    (response_types(pre) + content_types(content@.take(j as int))).push(t)
                } else {
                    response_types(pre) + content_types(content@.take(j as int))
                }));
                j = j + 1;
            }
            assert(content@.take(content@.len() as int) =~= content@);
            i = i + 1;
        }
        assert(self.response_entities@.take(self.response_entities@.len() as int) =~= self.response_entities@);
        found
    }

    /// The modules of the JSON response types, each once: every module of a JSON response
    /// type is there, and nothing else.
    pub fn extract_response_modules(&self) -> (r: Vec<ModuleInfo>)
        ensures
            forall|a: int, b: int| 0 <= a < b < r@.len() ==> !same_module(#[trigger] r@[a], #[trigger] r@[b]),
            forall|k: int| 0 <= k < r@.len() ==> has_module_of(response_types(self.response_entities@), #[trigger] r@[k]),
            forall|t: int| 0 <= t < response_types(self.response_entities@).len() && (#[trigger] response_types(self.response_entities@)[t]).module is Some
                ==> has_same_module(r@, response_types(self.response_entities@)[t].module->Some_0),
    {
        let mut modules: Vec<ModuleInfo> = Vec::new();
        let mut i: usize = 0;
        while i < self.response_entities.len()
            invariant
                i <= self.response_entities@.len(),
                forall|a: int, b: int| 0 <= a < b < modules@.len() ==> !same_module(#[trigger] modules@[a], #[trigger] modules@[b]),
                forall|k: int| 0 <= k < modules@.len() ==> has_module_of(response_types(self.response_entities@.take(i as int)), #[trigger] modules@[k]),
                forall|t: int| 0 <= t < response_types(self.response_entities@.take(i as int)).len()
                    && (#[trigger] response_types(self.response_entities@.take(i as int))[t]).module is Some
                    ==> has_same_module(modules@, response_types(self.response_entities@.take(i as int))[t].module->Some_0),
            decreases self.response_entities@.len() - i,
        {
            let ghost pre = response_types(self.response_entities@.take(i as int));
            assert(self.response_entities@.take(i + 1).drop_last() =~= self.response_entities@.take(i as int));
            let content = &self.response_entities[i].1.content;
            let mut j: usize = 0;
            while j < content.len()
                invariant
                    j <= content@.len(),
                    i < self.response_entities@.len(),
                    content == self.response_entities@[i as int].1.content,
                    pre == response_types(self.response_entities@.take(i as int)),
                    forall|a: int, b: int| 0 <= a < b < modules@.len() ==> !same_module(#[trigger] modules@[a], #[trigger] modules@[b]),
                    forall|k: int| 0 <= k < modules@.len() ==> has_module_of(pre + content_types(content@.take(j as int)), #[trigger] modules@[k]),
                    forall|t: int| 0 <= t < (pre + content_types(content@.take(j as int))).len()
                        && (#[trigger] (pre + content_types(content@.take(j as int)))[t]).module is Some
                        ==> has_same_module(modules@, (pre + content_types(content@.take(j as int)))[t].module->Some_0),
                decreases content@.len() - j,
            {
                let ghost seen = pre + content_types(content@.take(j as int));
                assert(content@.take(j + 1).drop_last() =~= content@.take(j as int));
                let ghost next = pre + content_types(content@.take(j + 1));
                let ghost before = modules@;
                if let TransferMediaType::ApplicationJson(Some(t)) = &content[j].1 {
                    assert(next =~= seen.push(*t));
                    if let Some(m) = &t.module {
                        if !contains_module(&modules, m) {
                            modules.push(m.copied());
                            assert forall|a: int, b: int| 0 <= a < b < modules@.len() implies !same_module(
                                #[trigger] modules@[a],
                                #[trigger] modules@[b],
                            ) by {
                                assert(modules@[a] == before[a]);
                                if b < before.len() {
                                    assert(modules@[b] == before[b]);
                                }
                            }
                        }
                    }
                    assert forall|k: int| 0 <= k < modules@.len() implies has_module_of(next, #[trigger] modules@[k]) by {
                        if k < before.len() {
                            assert(modules@[k] == before[k]);
                            let x = choose|x: int| 0 <= x < seen.len() && (#[trigger] seen[x]).module == Some(before[k]);
                            assert(next[x] == seen[x]);
                        } else {
                            assert(next[seen.len() as int] == *t);
                        }
                    }
                    assert forall|x: int| 0 <= x < next.len() && (#[trigger] next[x]).module is Some implies has_same_module(
                        modules@,
                        next[x].module->Some_0,
                    ) by {
                        if x < seen.len() {
                            assert(next[x] == seen[x]);
                            let k = choose|k: int| 0 <= k < before.len() && same_module(#[trigger] before[k], seen[x].module->Some_0);
                            assert(modules@[k] == before[k]);
                        } else {
                            assert(next[x] == *t);
                            if !has_same_module(before, t.module->Some_0) {
                                assert(same_module(modules@[before.len() as int], t.module->Some_0));
                            } else {
                                let k = choose|k: int| 0 <= k < before.len() && same_module(#[trigger] before[k], t.module->Some_0);
                                assert(modules@[k] == before[k]);
                            }
                        }
                    }
                } else {
                    assert(next =~= seen);
                }
                j = j + 1;
            }
            assert(content@.take(content@.len() as int) =~= content@);
            i = i + 1;
        }
        assert(self.response_entities@.take(self.response_entities@.len() as int) =~= self.response_entities@);
        modules
    }
}

/// Some type in the list imports the module.
pub open spec fn has_module_of(types: Seq<TypeDefinition>, m: ModuleInfo) -> bool {
    exists|x: int| 0 <= x < types.len() && (#[trigger] types[x]).module == Some(m)
}

/// Some module in the list has the same path and name.
pub open spec fn has_same_module(modules: Seq<ModuleInfo>, m: ModuleInfo) -> bool {
    exists|k: int| 0 <= k < modules.len() && same_module(#[trigger] modules[k], m)
}

/// Two modules with the same path and name.
pub open spec fn same_module(a: ModuleInfo, b: ModuleInfo) -> bool {
    a.name@ == b.name@ && a.path@ == b.path@
}

/// Whether the list holds a module with the same path and name.
pub fn contains_module(modules: &Vec<ModuleInfo>, m: &ModuleInfo) -> (r: bool)
    ensures
        r == exists|k: int| 0 <= k < modules@.len() && same_module(#[trigger] modules@[k], *m),
{
    let mut i: usize = 0;
    while i < modules.len()
        invariant
            i <= modules@.len(),
            forall|k: int| 0 <= k < i ==> !same_module(#[trigger] modules@[k], *m),
        decreases modules@.len() - i,
    {
        if modules[i].name == m.name && modules[i].path == m.path {
            assert(same_module(modules@[i as int], *m));
            return true;
        }
        i = i + 1;
    }
    false
}

} // verus!
