//! Generation settings: project metadata, name overrides and ignore lists.
use crate::casing::{kebab_of, pascal_of, to_kebab, to_pascal};
use crate::name_mapping::NameMapping;
use crate::text::{ends_with, is_suffix, list_contains, views};
use vstd::prelude::*;
use vstd::string::*;

verus! {

#[derive(Clone, Copy, Debug, PartialEq, Eq, PartialOrd, Ord, Structural)]
pub enum Language {
    Rust,
    Scala,
}

impl Language {
    pub fn to_string(&self) -> (r: String)
        ensures
            r@ == match self {
                Language::Rust => "rust"@,
                Language::Scala => "scala"@,
            },
    {
        match self {
            Language::Rust => "rust".to_owned(),
            Language::Scala => "scala".to_owned(),
        }
    }
}

#[derive(Clone, Debug)]
pub struct ProjectMetadata {
    pub name: String,
    pub version: String,
    pub client_name: String,
    pub user_agent: String,
    pub server_url: String,
}

pub fn default_client_name() -> (r: String)
    ensures
        r@ == "Client"@,
{
    "Client".to_owned()
}

pub fn default_server_url() -> (r: String)
    ensures
        r@ == "http://localhost:8080"@,
{
    "http://localhost:8080".to_owned()
}

pub fn default_language() -> (r: Language)
    ensures
        r == Language::Rust,
{
    Language::Rust
}

/// The client name derived from a project name: PascalCase, ending in `Client`.
pub open spec fn derived_client_name(name: Seq<char>) -> Seq<char> {
    if is_suffix("Client"@, pascal_of(name)) {
        pascal_of(name)
    } else {
        pascal_of(name) + "Client"@
    }
}

/// `r` is `m` with the defaults of `validate` filled in.
pub open spec fn validated_metadata(m: ProjectMetadata, r: ProjectMetadata) -> bool {
    &&& r.name@ == m.name@
    &&& r.server_url@ == m.server_url@
    &&& r.version@ == (if m.version@.len() == 0 {
        "0.1.0"@
    } else {
        m.version@
    })
    &&& r.client_name@ == (if m.client_name@.len() == 0 {
        derived_client_name(m.name@)
    } else {
        m.client_name@
    })
    &&& r.user_agent@ == (if m.user_agent@.len() == 0 {
        kebab_of(m.client_name@) + "/"@ + r.version@
    } else {
        m.user_agent@
    })
}

impl ProjectMetadata {
    pub fn new() -> (r: Self)
        ensures
            r.name@.len() == 0 && r.version@.len() == 0 && r.client_name@.len() == 0
                && r.user_agent@.len() == 0 && r.server_url@.len() == 0,
    {
        ProjectMetadata {
            name: String::new(),
            version: String::new(),
            client_name: String::new(),
            user_agent: String::new(),
            server_url: String::new(),
        }
    }

    /// The metadata with defaults filled in: version `0.1.0`, a client name derived from the
    /// project name, and a user agent made of the client name and the version.
    pub fn validate(&self) -> (r: Self)
        ensures
            validated_metadata(*self, r),
    {
        let version = if self.version.unicode_len() == 0 {
            "0.1.0".to_owned()
        } else {
            self.version.clone()
        };
        let client_name = if self.client_name.unicode_len() == 0 {
            let mut c_name = to_pascal(self.name.as_str());
            if !ends_with(c_name.as_str(), "Client") {
                c_name.append("Client");
            }
            c_name
        } else {
            self.client_name.clone()
        };
        let user_agent = if self.user_agent.unicode_len() == 0 {
            let mut agent = to_kebab(self.client_name.as_str());
            agent.append("/");
            agent.append(version.as_str());
            agent
        } else {
            self.user_agent.clone()
        };
        ProjectMetadata {
            name: self.name.clone(),
            version,
            client_name,
            user_agent,
            server_url: self.server_url.clone(),
        }
    }
}

/// Components and URL templates left out of generation, by exact name.
#[derive(Clone, Debug)]
pub struct SpecIgnore {
    pub components: Vec<String>,
    pub paths: Vec<String>,
}

impl SpecIgnore {
    pub fn new() -> (r: Self)
        ensures
            r.components@.len() == 0 && r.paths@.len() == 0,
    {
        SpecIgnore { components: Vec::new(), paths: Vec::new() }
    }

    pub fn component_ignored(&self, name: &str) -> (r: bool)
        ensures
            r == views(self.components@).contains(name@),
    {
        list_contains(&self.components, name)
    }

    pub fn path_ignored(&self, name: &str) -> (r: bool)
        ensures
            r == views(self.paths@).contains(name@),
    {
        list_contains(&self.paths, name)
    }
}

#[derive(Clone, Debug)]
pub struct Config {
    pub project_metadata: ProjectMetadata,
    pub name_mapping: NameMapping,
    pub ignore: SpecIgnore,
    pub serde_skip_null: bool,
    pub serde_skip_empty_vec: bool,
    pub serde_skip_empty_map: bool,
    pub serde_serialize: bool,
    pub serde_deserialize: bool,
    pub language: Language,
}

impl Config {
    /// The default settings: no overrides, nothing ignored, every serde switch on, Rust.
    pub fn new() -> (r: Self)
        ensures
            r.serde_skip_null && r.serde_skip_empty_vec && r.serde_skip_empty_map && r.serde_serialize
                && r.serde_deserialize,
            r.language == Language::Rust,
            r.ignore.components@.len() == 0 && r.ignore.paths@.len() == 0,
            r.name_mapping.struct_mapping@.len() == 0 && r.name_mapping.status_code_mapping@.len() == 0
                && r.name_mapping.property_mapping@.len() == 0 && r.name_mapping.module_mapping@.len() == 0
                && r.name_mapping.property_type_mapping@.len() == 0,
            !r.name_mapping.use_scope && !r.name_mapping.i32_to_u32,
    {
        Config {
            project_metadata: ProjectMetadata::new(),
            name_mapping: NameMapping::new(),
            ignore: SpecIgnore::new(),
            serde_skip_empty_map: true,
            serde_skip_empty_vec: true,
            serde_skip_null: true,
            serde_serialize: true,
            serde_deserialize: true,
            language: default_language(),
        }
    }

    pub fn set_language(&mut self, language: Language)
        ensures
            *final(self) == (Config { language, ..*old(self) }),
    {
        self.language = language;
    }

    /// Fills in the defaults of the project metadata; nothing else changes.
    pub fn validate(&mut self)
        ensures
            validated_metadata(old(self).project_metadata, final(self).project_metadata),
            *final(self) == (Config { project_metadata: final(self).project_metadata, ..*old(self) }),
    {
        self.project_metadata = self.project_metadata.validate();
    }
}

} // verus!
