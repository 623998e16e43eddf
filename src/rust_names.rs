//! Naming rules of the Rust target: keyword escapes, namespaces, imports and doc comments.
use crate::name_mapping::{package_of, primitive_names, primitive_type_names};
use crate::text::{
    eq_ignore_ascii_case, eq_ignore_case, is_prefix, lemma_split_nonempty, split,
    split_on, starts_with, str_eq, views,
};
use crate::types::{same_module, ModuleInfo, PropertyDefinition, TypeDefinition};
use vstd::prelude::*;
use vstd::string::*;

verus! {

/// A name that must be written as a raw identifier.
pub open spec fn is_private(name: Seq<char>) -> bool {
    eq_ignore_case(name, "type"@) || is_prefix("r#"@, name)
}

pub fn is_private_name(name: &str) -> (r: bool)
    ensures
        r == is_private(name@),
{
    eq_ignore_ascii_case(name, "type") || starts_with(name, "r#")
}

/// The identifier for a name: `type`, in any case, becomes `r#type`.
pub open spec fn private_fixed(name: Seq<char>) -> Seq<char> {
    if eq_ignore_case(name, "type"@) {
        "r#type"@
    } else {
        name
    }
}

pub fn fix_private_name(name: &str) -> (r: String)
    ensures
        r@ == private_fixed(name@),
{
    if eq_ignore_ascii_case(name, "type") {
        "r#type".to_owned()
    } else {
        name.to_owned()
    }
}

/// The identifier of the last `::` separated piece of a qualified name.
pub fn extract_rust_name(name: &str) -> (r: String)
    ensures
        r@ == private_fixed(split_on(name@, "::"@).last()),
{
    proof {
        reveal_strlit("::");
        lemma_split_nonempty(name@, "::"@, Seq::empty());
    }
    let parts = split(name, "::");
    fix_private_name(parts[parts.len() - 1].as_str())
}

/// Everything before the last `::` separated piece of a qualified name.
pub fn extract_rust_namespace(name: &str) -> (r: String)
    ensures
        r@ == package_of(name@),
{
    proof {
        reveal_strlit("::");
        lemma_split_nonempty(name@, "::"@, Seq::empty());
    }
    let parts = split(name, "::");
    let r = crate::name_mapping::join_first(&parts, parts.len() - 1, "::");
    assert(views(parts@).take(parts@.len() - 1) =~= views(parts@).drop_last());
    r
}

/// The type written for a property: names under `models::` are made absolute.
pub open spec fn fixed_property_type(property: Seq<char>) -> Seq<char> {
    if is_prefix("crate::"@, property) || primitive_names().contains(property) {
        property
    } else if is_prefix("models::"@, property) {
        "crate::"@ + property
    } else {
        property
    }
}

fn is_primitive_name(name: &str) -> (r: bool)
    ensures
        r == primitive_names().contains(name@),
{
    let names = primitive_type_names();
    let ghost all = names@.map_values(|s: &str| s@);
    let mut i: usize = 0;
    while i < names.len()
        invariant
            i <= names@.len(),
            all == names@.map_values(|s: &str| s@),
            all == primitive_names(),
            forall|k: int| 0 <= k < i ==> all[k] != name@,
        decreases names@.len() - i,
    {
        if str_eq(names[i], name) {
            assert(all[i as int] == name@);
            assert(primitive_names().contains(name@));
            return true;
        }
        i = i + 1;
    }
    false
}

pub fn fix_type_name_property(property: &str) -> (r: String)
    ensures
        r@ == fixed_property_type(property@),
{
    if starts_with(property, "crate::") || is_primitive_name(property) {
        return property.to_owned();
    }
    if starts_with(property, "models::") {
        let mut out = "crate::".to_owned();
        out.append(property);
        return out;
    }
    property.to_owned()
}

/// The response type of a call: absolute under `crate::`, or a dynamic value where there is
/// none.
pub fn extract_default_rust_response_type(optional_response: Option<TypeDefinition>) -> (r: String)
    ensures
        match optional_response {
            Some(t) => r@ == (if is_prefix("crate::"@, t.name@) {
                t.name@
            } else {
                "crate::"@ + t.name@
            }),
            None => r@ == "serde_json:Value"@,
        },
{
    match optional_response {
        Some(response) => {
            if !starts_with(response.name.as_str(), "crate::") {
                let mut out = "crate::".to_owned();
                out.append(response.name.as_str());
                out
            } else {
                response.name
            }
        },
        None => "serde_json:Value".to_owned(),
    }
}

/// The modules, each first occurrence only.
pub open spec fn first_occurrences(modules: Seq<ModuleInfo>) -> Seq<ModuleInfo>
    decreases modules.len(),
{
    if modules.len() == 0 {
        Seq::empty()
    } else {
        let rest = first_occurrences(modules.drop_last());
        if exists|k: int| 0 <= k < rest.len() && same_module(#[trigger] rest[k], modules.last()) {
            rest
        } else {
            rest.push(modules.last())
        }
    }
}

pub open spec fn import_lines(modules: Seq<ModuleInfo>) -> Seq<char>
    decreases modules.len(),
{
    if modules.len() == 0 {
        Seq::empty()
    } else {
        import_lines(modules.drop_last()) + "use "@ + modules.last().path@ + "::"@ + modules.last().name@ + ";\n"@
    }
}

/// One import line per distinct module, in order of first occurrence.
pub fn modules_to_string(modules: &Vec<ModuleInfo>) -> (r: String)
    ensures
        r@ == import_lines(first_occurrences(modules@)),
{
    let mut text = String::new();
    let mut unique: Vec<ModuleInfo> = Vec::new();
    let mut i: usize = 0;
    while i < modules.len()
        invariant
            i <= modules@.len(),
            unique@ == first_occurrences(modules@.take(i as int)),
            text@ == import_lines(unique@),
        decreases modules@.len() - i,
    {
        assert(modules@.take(i + 1).drop_last() =~= modules@.take(i as int));
        assert(modules@.take(i + 1).last() == modules@[i as int]);
        let module = &modules[i];
        if !crate::types::contains_module(&unique, module) {
            let ghost before = unique@;
            unique.push(module.copied());
            assert(unique@.drop_last() =~= before);
            text.append("use ");
            text.append(module.path.as_str());
            text.append("::");
            text.append(module.name.as_str());
            text.append(";\n");
        }
        i = i + 1;
    }
    assert(modules@.take(modules@.len() as int) =~= modules@);
    text
}

/// The text with white space at both ends removed.
pub uninterp spec fn trimmed_of(s: Seq<char>) -> Seq<char>;

/// Relies on std's `str::trim`: the text without leading and trailing white space, which
/// depends on the text alone.
#[verifier::external_body]
fn trim_text(s: &str) -> (r: String)
    ensures
        r@ == trimmed_of(s@),
{
    s.trim().to_owned()
}

/// A line without a trailing carriage return.
pub open spec fn without_cr(line: Seq<char>) -> Seq<char> {
    if line.len() > 0 && line.last() == '\r' {
        line.drop_last()
    } else {
        line
    }
}

/// The lines of a text, as `str::lines` splits it.
pub open spec fn text_lines(s: Seq<char>) -> Seq<Seq<char>> {
    let parts = split_on(s, "\n"@);
    let kept = if s.len() == 0 || s.last() == '\n' {
        parts.drop_last()
    } else {
        parts
    };
    kept.map_values(|l: Seq<char>| without_cr(l))
}

pub open spec fn comment_lines(ident: Seq<char>, lines: Seq<Seq<char>>) -> Seq<char>
    decreases lines.len(),
{
    if lines.len() == 0 {
        Seq::empty()
    } else {
        comment_lines(ident, lines.drop_last()) + ident + "/// "@ + lines.last() + "\n"@
    }
}

/// A description as doc-comment lines indented by `ident`.
pub open spec fn rust_description(ident: Seq<char>, description: Seq<char>) -> Seq<char> {
    if description.len() == 0 {
        Seq::empty()
    } else {
        let result = trimmed_of(comment_lines(ident, text_lines(description)));
        if is_prefix("///"@, result) {
            result
        } else {
            "/// "@ + result
        }
    }
}

fn strip_cr(line: &str) -> (r: String)
    ensures
        r@ == without_cr(line@),
{
    let n = line.unicode_len();
    if n > 0 && line.get_char(n - 1) == '\r' {
        assert(line@.subrange(0, n - 1) =~= line@.drop_last());
        return line.substring_char(0, n - 1).to_owned();
    }
    line.to_owned()
}

pub fn fix_rust_description(ident: &str, description: &str) -> (r: String)
    ensures
        r@ == rust_description(ident@, description@),
{
    let n = description.unicode_len();
    if n == 0 {
        return String::new();
    }
    proof {
        reveal_strlit("\n");
        lemma_split_nonempty(description@, "\n"@, Seq::empty());
    }
    let parts = split(description, "\n");
    let count = if description.get_char(n - 1) == '\n' {
        parts.len() - 1
    } else {
        parts.len()
    };
    let ghost kept = if description@.last() == '\n' {
        views(parts@).drop_last()
    } else {
        views(parts@)
    };
    assert(kept =~= views(parts@).take(count as int));
    let mut text = String::new();
    let mut i: usize = 0;
    while i < count
        invariant
            count <= parts@.len(),
            i <= count,
            kept == views(parts@).take(count as int),
            text@ == comment_lines(ident@, kept.map_values(|l: Seq<char>| without_cr(l)).take(i as int)),
        decreases count - i,
    {
        let ghost lines = kept.map_values(|l: Seq<char>| without_cr(l));
        assert(lines.take(i + 1).drop_last() =~= lines.take(i as int));
        let line = strip_cr(parts[i].as_str());
        text.append(ident);
        text.append("/// ");
        text.append(line.as_str());
        text.append("\n");
        i = i + 1;
    }
    assert(kept.map_values(|l: Seq<char>| without_cr(l)).take(count as int) =~= kept.map_values(
        |l: Seq<char>| without_cr(l),
    ));
    let result = trim_text(text.as_str());
    if starts_with(result.as_str(), "///") {
        return result;
    }
    let mut out = "/// ".to_owned();
    out.append(result.as_str());
    out
}


/// A field of a generated struct.
#[derive(Clone, Debug)]
pub struct Field {
    pub annotations: Vec<String>,
    pub description: String,
    pub modifier: String,
    pub name: String,
    pub typ: String,
}

/// The public field of a property: its doc comment (a placeholder where it has no
/// description) and its type written for the target.
pub fn property_definition_to_field(property: &PropertyDefinition) -> (r: Field)
    ensures
        r.annotations@.len() == 0,
        r.modifier@ == "pub"@,
        r.name@ == property.name@,
        r.typ@ == fixed_property_type(property.property_type@),
        r.description@ == rust_description(
            ""@,
            match property.description {
                Some(d) => d@,
                None => "No description available"@,
            },
        ),
{
    let description = match &property.description {
        Some(d) => fix_rust_description("", d.as_str()),
        None => fix_rust_description("", "No description available"),
    };
    Field {
        annotations: Vec::new(),
        description,
        modifier: "pub".to_owned(),
        name: property.name.clone(),
        typ: fix_type_name_property(property.property_type.as_str()),
    }
}

} // verus!
