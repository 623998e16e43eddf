//! The modeler of ordinary request/response operations: path and query parameters, request
//! body and responses.
use crate::database::{insert_path, object_entries, path_entries, ObjectDatabase, PathDatabase};
use crate::errors::GeneratorError;
use crate::casing::snake_of;
use crate::name_mapping::{
    last_or_empty, module_name_of, property_name_of, special_parts, struct_name_of, NameMapping,
};
use crate::path_utils::{
    all_statuses_named, canonical_name_of, entity_keys, request_body_resolves, response_keys,
    generate_request_body, generate_request_body_entity, generate_responses, is_param_segment,
    is_path_parameter,
};
use crate::resolver::{
    db_extends, get_type_from_schema, has_property_named, simple_type_name, type_resolves, unique_property_names,
    MAX_RESOLUTION_DEPTH,
};
use crate::schema::{resolve_schema, resolved, Operation, Parameter, ParameterIn, ParameterOrRef, SpecDocument};
use crate::text::{concat, copy_path, is_prefix, join, joined, occurs_at, occurs_in, replace, replaced, split, split_on, starts_with, views};
use crate::types::{
    has_same_module,
    Method, ModuleInfo, PathDefinition, PathParameters, PropertyDefinition, QueryParameters,
    RequestEntity, StructDefinition, TransferMediaType,
};
use vstd::prelude::*;
use vstd::string::*;

verus! {

/// A path parameter's name: its segment without braces.
pub open spec fn braces_removed(s: Seq<char>) -> Seq<char> {
    replaced(replaced(s, "{"@, ""@), "}"@, ""@)
}

/// The names of the `{...}` segments, left to right.
pub open spec fn param_names(segments: Seq<Seq<char>>) -> Seq<Seq<char>>
    decreases segments.len(),
{
    if segments.len() == 0 {
        Seq::empty()
    } else {
        let rest = param_names(segments.drop_last());
        if is_param_segment(segments.last()) {
            rest.push(braces_removed(segments.last()))
        } else {
            rest
        }
    }
}

/// The segments with each `{...}` segment turned into a positional placeholder.
pub open spec fn format_segments(segments: Seq<Seq<char>>) -> Seq<Seq<char>> {
    segments.map_values(|s: Seq<char>| if is_param_segment(s) { "{}"@ } else { s })
}

/// The URL format string of a URL template.
pub open spec fn url_format(path: Seq<char>) -> Seq<char> {
    joined(format_segments(split_on(path, "/"@)), "/"@)
}

pub open spec fn real_names(properties: Seq<PropertyDefinition>) -> Seq<Seq<char>> {
    properties.map_values(|p: PropertyDefinition| p.real_name@)
}

fn push_path(path: &Vec<String>, last: &String) -> (r: Vec<String>)
    ensures
        r@ == path@.push(*last),
{
    let mut out = copy_path(path);
    out.push(last.clone());
    out
}

/// The names, each kept only where no earlier one converts to the same property name.
pub open spec fn first_param_names(mapping: NameMapping, path: Seq<Seq<char>>, names: Seq<Seq<char>>) -> Seq<Seq<char>>
    decreases names.len(),
{
    if names.len() == 0 {
        Seq::empty()
    } else {
        let rest = first_param_names(mapping, path, names.drop_last());
        if exists|j: int| 0 <= j < rest.len() && property_name_of(mapping, path, #[trigger] rest[j]) == property_name_of(
            mapping,
            path,
            names.last(),
        ) {
            rest
        } else {
            rest.push(names.last())
        }
    }
}

fn has_property(properties: &Vec<PropertyDefinition>, name: &String) -> (r: bool)
    ensures
        r == has_property_named(properties@, name@),
{
    let mut i: usize = 0;
    while i < properties.len()
        invariant
            i <= properties@.len(),
            forall|k: int| 0 <= k < i ==> (#[trigger] properties@[k]).name@ != name@,
        decreases properties@.len() - i,
    {
        if properties[i].name == *name {
            return true;
        }
        i = i + 1;
    }
    false
}

/// The path parameters of a URL template: one required, string-typed property per `{...}`
/// segment in left-to-right order, and the template with those segments as placeholders.
pub fn generate_path_parameters(
    spec: &SpecDocument,
    operation: &Operation,
    definition_path: &Vec<String>,
    name_mapping: &NameMapping,
    function_name: &str,
    path: &str,
) -> (r: Result<PathParameters, GeneratorError>)
    ensures
        r matches Ok(pp) && real_names(pp.parameters_struct.properties@) == first_param_names(
            *name_mapping,
            views(definition_path@).push(struct_name_of(*name_mapping, views(definition_path@), function_name@ + "PathParameters"@)),
            param_names(split_on(path@, "/"@)),
        ) && unique_property_names(pp.parameters_struct.properties@)
            && (forall|k: int| 0 <= k < pp.parameters_struct.properties@.len() ==> (#[trigger] pp.parameters_struct.properties@[k]).required
            && pp.parameters_struct.properties@[k].property_type@ == "String"@
            && pp.parameters_struct.properties@[k].module is None)
            && pp.path_format_string@ == url_format(path@) && pp.parameters_struct_variable_name@ == property_name_of(
            *name_mapping,
            views(definition_path@),
            "path_parameters"@,
        ),
{
    proof {
        reveal_strlit("/");
        reveal_strlit("{");
        reveal_strlit("}");
    }
    let struct_full_name = name_mapping.name_to_struct_name(
        definition_path,
        concat(function_name, "PathParameters").as_str(),
    );
    let parameters_path = push_path(definition_path, &struct_full_name);
    assert(views(parameters_path@) =~= views(definition_path@).push(struct_full_name@));
    let segments = split(path, "/");
    let mut properties: Vec<PropertyDefinition> = Vec::new();
    let mut formatted: Vec<String> = Vec::new();
    let mut i: usize = 0;
    while i < segments.len()
        invariant
            i <= segments@.len(),
            real_names(properties@) == first_param_names(*name_mapping, views(parameters_path@), param_names(views(segments@).take(i as int))),
            unique_property_names(properties@),
            forall|k: int| 0 <= k < properties@.len() ==> (#[trigger] properties@[k]).name@ == property_name_of(
                *name_mapping,
                views(parameters_path@),
                properties@[k].real_name@,
            ),
            views(formatted@) == format_segments(views(segments@).take(i as int)),
            forall|k: int| 0 <= k < properties@.len() ==> (#[trigger] properties@[k]).required
                && properties@[k].property_type@ == "String"@ && properties@[k].module is None,
        decreases segments@.len() - i,
    {
        let segment = segments[i].as_str();
        let ghost pre = views(segments@).take(i as int);
        let ghost next = views(segments@).take(i + 1);
        assert(next.drop_last() =~= pre);
        assert(next.last() == segments@[i as int]@);
        let ghost before_formatted = formatted@;
        if is_path_parameter(segment) {
            proof {
                reveal_strlit("{");
                reveal_strlit("}");
            }
            let without_open = replace(segment, "{", "");
            let real_name = replace(without_open.as_str(), "}", "");
            let mut description: Option<String> = None;
            let mut example: Option<String> = None;
            let mut j: usize = 0;
            while j < operation.parameters.len()
                invariant
                    j <= operation.parameters@.len(),
                decreases operation.parameters@.len() - j,
            {
                if let ParameterOrRef::Parameter(parameter) = &operation.parameters[j] {
                    if parameter.location == ParameterIn::Path && parameter.name == real_name {
                        description = parameter.description.clone();
                        example = parameter.example.clone();
                        break;
                    }
                }
                j = j + 1;
            }
            let ghost before = properties@;
            let ghost names_before = param_names(pre);
            let ghost rn = real_name@;
            assert(param_names(next) == names_before.push(rn));
            assert(param_names(next).drop_last() =~= names_before);
            let property_name = name_mapping.name_to_property_name(&parameters_path, real_name.as_str());
            if !has_property(&properties, &property_name) {
                properties.push(
                    PropertyDefinition {
                        module: None,
                        name: property_name,
                        real_name,
                        required: true,
                        property_type: "String".to_owned(),
                        description,
                        example,
                    },
                );
                assert(real_names(properties@) =~= real_names(before).push(rn));
                assert(!exists|j: int| 0 <= j < real_names(before).len() && property_name_of(
                    *name_mapping,
                    views(parameters_path@),
                    #[trigger] real_names(before)[j],
                ) == property_name_of(*name_mapping, views(parameters_path@), rn)) by {
                    if exists|j: int| 0 <= j < real_names(before).len() && property_name_of(
                        *name_mapping,
                        views(parameters_path@),
                        #[trigger] real_names(before)[j],
                    ) == property_name_of(*name_mapping, views(parameters_path@), rn) {
                        let j = choose|j: int| 0 <= j < real_names(before).len() && property_name_of(
                            *name_mapping,
                            views(parameters_path@),
                            #[trigger] real_names(before)[j],
                        ) == property_name_of(*name_mapping, views(parameters_path@), rn);
                        assert(before[j].name@ == property_name_of(*name_mapping, views(parameters_path@), rn));
                    }
                }
                assert forall|a: int, b: int| 0 <= a < b < properties@.len() implies (#[trigger] properties@[a]).name@
                    != (#[trigger] properties@[b]).name@ by {
                    assert(properties@[a] == before[a]);
                    if b < before.len() {
                        assert(properties@[b] == before[b]);
                    }
                }
                assert forall|k: int| 0 <= k < properties@.len() implies (#[trigger] properties@[k]).name@ == property_name_of(
                    *name_mapping,
                    views(parameters_path@),
                    properties@[k].real_name@,
                ) by {
                    if k < before.len() {
                        assert(properties@[k] == before[k]);
                    }
                }
            } else {
                proof {
                    let k = choose|k: int| 0 <= k < before.len() && (#[trigger] before[k]).name@ == property_name@;
                    assert(real_names(before)[k] == before[k].real_name@);
                    assert(property_name_of(*name_mapping, views(parameters_path@), real_names(before)[k])
                        == property_name_of(*name_mapping, views(parameters_path@), rn));
                }
            }
            formatted.push("{}".to_owned());
        } else {
            formatted.push(segments[i].clone());
        }
        assert(views(formatted@) =~= views(before_formatted).push(
            if is_param_segment(segments@[i as int]@) {
                "{}"@
            } else {
                segments@[i as int]@
            },
        ));
        assert(format_segments(next) =~= format_segments(pre).push(
            if is_param_segment(segments@[i as int]@) {
                "{}"@
            } else {
                segments@[i as int]@
            },
        ));
        i = i + 1;
    }
    assert(views(segments@).take(segments@.len() as int) =~= views(segments@));
    let path_format_string = join(&formatted, "/");
    let package_name = name_mapping.extract_package_name(struct_full_name.as_str());
    let struct_name = name_mapping.extract_struct_name(struct_full_name.as_str());
    Ok(
        PathParameters {
            parameters_struct_variable_name: name_mapping.name_to_property_name(
                definition_path,
                "path_parameters",
            ),
            parameters_struct: StructDefinition {
                package: package_name,
                name: struct_name,
                used_modules: Vec::new(),
                local_objects: Vec::new(),
                properties,
                description: None,
            },
            path_format_string,
        },
    )
}


/// A property whose type is a sequence.
pub open spec fn is_sequence(p: PropertyDefinition) -> bool {
    is_prefix("Vec<"@, p.property_type@)
}

/// The key/value pair of a required single-valued query parameter.
pub open spec fn pair_text(var: Seq<char>, p: PropertyDefinition) -> Seq<char> {
    "(\""@ + p.real_name@ + "\","@ + var + "."@ + p.name@ + ".to_string())"@
}

/// The pairs of the required, single-valued query parameters, in order.
pub open spec fn single_pairs(var: Seq<char>, props: Seq<PropertyDefinition>) -> Seq<Seq<char>>
    decreases props.len(),
{
    if props.len() == 0 {
        Seq::empty()
    } else {
        let rest = single_pairs(var, props.drop_last());
        if props.last().required && !is_sequence(props.last()) {
            rest.push(pair_text(var, props.last()))
        } else {
            rest
        }
    }
}

/// Some query parameter is optional or a sequence, so the list is added to later.
pub open spec fn needs_mut(props: Seq<PropertyDefinition>) -> bool {
    exists|k: int| 0 <= k < props.len() && (!(#[trigger] props[k]).required || is_sequence(props[k]))
}

/// The statement that starts the query list with the required single-valued pairs.
pub open spec fn header_line(var: Seq<char>, props: Seq<PropertyDefinition>) -> Seq<char> {
    "  let "@ + (if needs_mut(props) {
        "mut"@
    } else {
        ""@
    }) + " request_query_parameters: Vec<(&str, String)> = vec!["@ + joined(single_pairs(var, props), ","@)
        + "];\n"@
}

/// The statement that adds one pair per element of a required sequence parameter.
pub open spec fn repeated_line(var: Seq<char>, field: Seq<char>, wire: Seq<char>) -> Seq<char> {
    var + "."@ + field
        + ".iter().for_each(|query_parameter_item| request_query_parameters.push((\""@ + wire
        + "\", query_parameter_item.to_string())));\n"@
}

pub open spec fn required_sequence_lines(
    mapping: NameMapping,
    path: Seq<Seq<char>>,
    var: Seq<char>,
    props: Seq<PropertyDefinition>,
) -> Seq<char>
    decreases props.len(),
{
    if props.len() == 0 {
        Seq::empty()
    } else {
        let rest = required_sequence_lines(mapping, path, var, props.drop_last());
        let p = props.last();
        if p.required && is_sequence(p) {
            rest + repeated_line(var, property_name_of(mapping, path, p.name@), p.real_name@)
        } else {
            rest
        }
    }
}

/// The statements that add an optional parameter where it is present: one pair per element
/// for a sequence, else one pair.
pub open spec fn optional_block(var: Seq<char>, p: PropertyDefinition) -> Seq<char> {
    "  if let Some(ref query_parameter) = "@ + var + "."@ + p.name@ + " {\n"@ + (if is_sequence(p) {
        "  query_parameter.iter().for_each(|query_parameter_item| request_query_parameters.push((\""@
            + p.real_name@ + "\", query_parameter_item.to_string())));\n"@
    } else {
        "  request_query_parameters.push((\""@ + p.real_name@ + "\", query_parameter.to_string()));\n"@
    }) + "}\n"@
}

pub open spec fn optional_blocks(var: Seq<char>, props: Seq<PropertyDefinition>) -> Seq<char>
    decreases props.len(),
{
    if props.len() == 0 {
        Seq::empty()
    } else {
        let rest = optional_blocks(var, props.drop_last());
        if !props.last().required {
            rest + optional_block(var, props.last())
        } else {
            rest
        }
    }
}

/// The code that collects the query pairs of a call.
pub open spec fn query_unroll_code(
    mapping: NameMapping,
    path: Seq<Seq<char>>,
    var: Seq<char>,
    props: Seq<PropertyDefinition>,
) -> Seq<char> {
    header_line(var, props) + required_sequence_lines(mapping, path, var, props) + optional_blocks(var, props)
}

proof fn lemma_occurs_extend(a: Seq<char>, b: Seq<char>, c: Seq<char>, p: Seq<char>)
    requires
        occurs_in(b, p),
    ensures
        occurs_in(a + b + c, p),
{
    let i = choose|i: int| occurs_at(b, p, i);
    let s = a + b + c;
    assert(s.subrange(a.len() + i, a.len() + i + p.len()) =~= b.subrange(i, i + p.len()));
    assert(occurs_at(s, p, a.len() + i));
}

proof fn lemma_sequence_line_present(
    mapping: NameMapping,
    path: Seq<Seq<char>>,
    var: Seq<char>,
    props: Seq<PropertyDefinition>,
    k: int,
)
    requires
        0 <= k < props.len(),
        props[k].required,
        is_sequence(props[k]),
    ensures
        occurs_in(
            required_sequence_lines(mapping, path, var, props),
            repeated_line(var, property_name_of(mapping, path, props[k].name@), props[k].real_name@),
        ),
    decreases props.len(),
{
    let line = repeated_line(var, property_name_of(mapping, path, props[k].name@), props[k].real_name@);
    let rest = required_sequence_lines(mapping, path, var, props.drop_last());
    if k == props.len() - 1 {
        assert(line =~= line.subrange(0, line.len() as int));
        assert(occurs_in(line, line)) by {
            assert(occurs_at(line, line, 0));
        }
        lemma_occurs_extend(rest, line, Seq::empty(), line);
        assert(rest + line + Seq::<char>::empty() =~= rest + line);
    } else {
        assert(props.drop_last()[k] == props[k]);
        lemma_sequence_line_present(mapping, path, var, props.drop_last(), k);
        let extra = required_sequence_lines(mapping, path, var, props).subrange(
            rest.len() as int,
            required_sequence_lines(mapping, path, var, props).len() as int,
        );
        lemma_occurs_extend(Seq::empty(), rest, extra, line);
        assert(Seq::<char>::empty() + rest + extra =~= required_sequence_lines(mapping, path, var, props));
    }
}

proof fn lemma_optional_block_present(var: Seq<char>, props: Seq<PropertyDefinition>, k: int)
    requires
        0 <= k < props.len(),
        !props[k].required,
    ensures
        occurs_in(optional_blocks(var, props), optional_block(var, props[k])),
    decreases props.len(),
{
    let block = optional_block(var, props[k]);
    let rest = optional_blocks(var, props.drop_last());
    if k == props.len() - 1 {
        assert(occurs_in(block, block)) by {
            assert(block.subrange(0, block.len() as int) =~= block);
            assert(occurs_at(block, block, 0));
        }
        lemma_occurs_extend(rest, block, Seq::empty(), block);
        assert(rest + block + Seq::<char>::empty() =~= rest + block);
    } else {
        assert(props.drop_last()[k] == props[k]);
        lemma_optional_block_present(var, props.drop_last(), k);
        let all = optional_blocks(var, props);
        let extra = all.subrange(rest.len() as int, all.len() as int);
        lemma_occurs_extend(Seq::empty(), rest, extra, block);
        assert(Seq::<char>::empty() + rest + extra =~= all);
    }
}

/// A query parameter whose type is a sequence is added one key/value pair per element: a
/// required one by a statement that walks the sequence, an optional one by a block that walks
/// it where it is present.
pub proof fn lemma_sequence_parameters_expanded(
    mapping: NameMapping,
    path: Seq<Seq<char>>,
    var: Seq<char>,
    props: Seq<PropertyDefinition>,
    k: int,
)
    requires
        0 <= k < props.len(),
        is_sequence(props[k]),
    ensures
        props[k].required ==> occurs_in(
            query_unroll_code(mapping, path, var, props),
            repeated_line(var, property_name_of(mapping, path, props[k].name@), props[k].real_name@),
        ),
        !props[k].required ==> occurs_in(
            query_unroll_code(mapping, path, var, props),
            optional_block(var, props[k]),
        ) && optional_block(var, props[k]) == "  if let Some(ref query_parameter) = "@ + var + "."@
            + props[k].name@ + " {\n"@
            + "  query_parameter.iter().for_each(|query_parameter_item| request_query_parameters.push((\""@
            + props[k].real_name@ + "\", query_parameter_item.to_string())));\n"@ + "}\n"@,
{
    let h = header_line(var, props);
    let lines = required_sequence_lines(mapping, path, var, props);
    let blocks = optional_blocks(var, props);
    if props[k].required {
        lemma_sequence_line_present(mapping, path, var, props, k);
        lemma_occurs_extend(h, lines, blocks, repeated_line(var, property_name_of(mapping, path, props[k].name@), props[k].real_name@));
    } else {
        lemma_optional_block_present(var, props, k);
        lemma_occurs_extend(h + lines, blocks, Seq::empty(), optional_block(var, props[k]));
        assert(h + lines + blocks + Seq::<char>::empty() =~= query_unroll_code(mapping, path, var, props));
    }
}

fn is_sequence_property(p: &PropertyDefinition) -> (r: bool)
    ensures
        r == is_sequence(*p),
{
    starts_with(p.property_type.as_str(), "Vec<")
}

/// The code that collects the query pairs of a call.
fn query_code(
    name_mapping: &NameMapping,
    definition_path: &Vec<String>,
    var: &String,
    props: &Vec<PropertyDefinition>,
) -> (r: String)
    ensures
        r@ == query_unroll_code(*name_mapping, views(definition_path@), var@, props@),
{
    let mut mutable = false;
    let mut pairs: Vec<String> = Vec::new();
    let mut i: usize = 0;
    while i < props.len()
        invariant
            i <= props@.len(),
            views(pairs@) == single_pairs(var@, props@.take(i as int)),
            mutable == needs_mut(props@.take(i as int)),
        decreases props@.len() - i,
    {
        let p = &props[i];
        let ghost pre = props@.take(i as int);
        let ghost next = props@.take(i + 1);
        assert(next.drop_last() =~= pre);
        assert(next.last() == props@[i as int]);
        let seq_type = is_sequence_property(p);
        if !p.required || seq_type {
            mutable = true;
            assert(needs_mut(next)) by {
                assert(next[i as int] == props@[i as int]);
            }
        } else {
            assert(needs_mut(next) == needs_mut(pre)) by {
                if needs_mut(next) {
                    let k = choose|k: int| 0 <= k < next.len() && (!(#[trigger] next[k]).required || is_sequence(next[k]));
                    assert(k < i);
                    assert(next[k] == pre[k]);
                }
                if needs_mut(pre) {
                    let k = choose|k: int| 0 <= k < pre.len() && (!(#[trigger] pre[k]).required || is_sequence(pre[k]));
                    assert(next[k] == pre[k]);
                }
            }
        }
        if p.required && !seq_type {
            let mut t = "(\"".to_owned();
            t.append(p.real_name.as_str());
            t.append("\",");
            t.append(var.as_str());
            t.append(".");
            t.append(p.name.as_str());
            t.append(".to_string())");
            let ghost before = pairs@;
            pairs.push(t);
            assert(views(pairs@) =~= views(before).push(pair_text(var@, props@[i as int])));
        }
        proof {
            if needs_mut(pre) {
                let k = choose|k: int| 0 <= k < pre.len() && (!(#[trigger] pre[k]).required || is_sequence(pre[k]));
                assert(next[k] == pre[k]);
            }
        }
        i = i + 1;
    }
    assert(props@.take(props@.len() as int) =~= props@);
    let mut code = "  let ".to_owned();
    if mutable {
        code.append("mut");
    } else {
        code.append("");
    }
    code.append(" request_query_parameters: Vec<(&str, String)> = vec![");
    let joined_pairs = join(&pairs, ",");
    code.append(joined_pairs.as_str());
    code.append("];\n");
    let ghost header = code@;
    assert(header =~= header_line(var@, props@));
    let mut lines = String::new();
    let mut i: usize = 0;
    while i < props.len()
        invariant
            i <= props@.len(),
            lines@ == required_sequence_lines(*name_mapping, views(definition_path@), var@, props@.take(i as int)),
        decreases props@.len() - i,
    {
        let p = &props[i];
        let ghost pre = props@.take(i as int);
        let ghost next = props@.take(i + 1);
        assert(next.drop_last() =~= pre);
        assert(next.last() == props@[i as int]);
        if p.required && is_sequence_property(p) {
            let field = name_mapping.name_to_property_name(definition_path, p.name.as_str());
            let ghost before = lines@;
            lines.append(var.as_str());
            lines.append(".");
            lines.append(field.as_str());
            lines.append(".iter().for_each(|query_parameter_item| request_query_parameters.push((\"");
            lines.append(p.real_name.as_str());
            lines.append("\", query_parameter_item.to_string())));\n");
            assert(lines@ =~= before + repeated_line(var@, field@, p.real_name@));
        }
        i = i + 1;
    }
    let mut blocks = String::new();
    let mut i: usize = 0;
    while i < props.len()
        invariant
            i <= props@.len(),
            blocks@ == optional_blocks(var@, props@.take(i as int)),
        decreases props@.len() - i,
    {
        let p = &props[i];
        let ghost pre = props@.take(i as int);
        let ghost next = props@.take(i + 1);
        assert(next.drop_last() =~= pre);
        assert(next.last() == props@[i as int]);
        if !p.required {
            let ghost before = blocks@;
            blocks.append("  if let Some(ref query_parameter) = ");
            blocks.append(var.as_str());
            blocks.append(".");
            blocks.append(p.name.as_str());
            blocks.append(" {\n");
            if is_sequence_property(p) {
                blocks.append(
                    "  query_parameter.iter().for_each(|query_parameter_item| request_query_parameters.push((\"",
                );
                blocks.append(p.real_name.as_str());
                blocks.append("\", query_parameter_item.to_string())));\n");
            } else {
                blocks.append("  request_query_parameters.push((\"");
                blocks.append(p.real_name.as_str());
                blocks.append("\", query_parameter.to_string()));\n");
            }
            blocks.append("}\n");
            assert(blocks@ =~= before + optional_block(var@, *p));
        }
        i = i + 1;
    }
    code.append(lines.as_str());
    code.append(blocks.as_str());
    code
}

/// A parameter that is resolved and, where it is a query parameter, has a schema that resolves.
pub open spec fn parameter_well_formed(spec: SpecDocument, p: ParameterOrRef) -> bool {
    match p {
        ParameterOrRef::Parameter(x) => x.location == ParameterIn::Query ==> match x.schema {
            Some(sc) => resolved(spec, sc) is Some,
            None => false,
        },
        ParameterOrRef::Unresolved(_) => false,
    }
}

/// Every query parameter schema that resolves has a type that resolves.
pub open spec fn query_types_resolve(spec: SpecDocument, params: Seq<ParameterOrRef>) -> bool {
    forall|j: int| 0 <= j < params.len() ==> match #[trigger] params[j] {
        ParameterOrRef::Parameter(x) => x.location == ParameterIn::Query ==> match x.schema {
            Some(sc) => resolved(spec, sc) is Some ==> type_resolves(spec, sc),
            None => true,
        },
        ParameterOrRef::Unresolved(_) => true,
    }
}

/// Every parameter is resolved, and every query parameter has a schema whose type resolves.
pub open spec fn queries_resolve(spec: SpecDocument, params: Seq<ParameterOrRef>) -> bool {
    forall|j: int| 0 <= j < params.len() ==> match #[trigger] params[j] {
        ParameterOrRef::Parameter(p) => p.location == ParameterIn::Query ==> match p.schema {
            Some(sc) => type_resolves(spec, sc),
            None => false,
        },
        ParameterOrRef::Unresolved(_) => false,
    }
}

/// A property built from a query parameter: its wire name, its `required` flag (false where the
/// parameter leaves it open), and for a scalar or sequence schema its type.
pub open spec fn query_property_of(spec: SpecDocument, p: Parameter, prop: PropertyDefinition) -> bool {
    &&& p.location == ParameterIn::Query
    &&& p.name@ == prop.real_name@
    &&& prop.required == match p.required {
        Some(b) => b,
        None => false,
    }
    &&& match p.schema {
        Some(sc) => match resolved(spec, sc) {
            Some(x) => match simple_type_name(spec, x) {
                Some(n) => prop.property_type@ == n,
                None => true,
            },
            None => true,
        },
        None => true,
    }
}

/// A query parameter has a property under its converted name.
pub open spec fn query_param_covered(
    mapping: NameMapping,
    path: Seq<Seq<char>>,
    props: Seq<PropertyDefinition>,
    param: ParameterOrRef,
) -> bool {
    match param {
        ParameterOrRef::Parameter(p) => p.location == ParameterIn::Query ==> has_property_named(
            props,
            property_name_of(mapping, path, p.name@),
        ),
        ParameterOrRef::Unresolved(_) => true,
    }
}

/// The property comes from one of the query parameters.
pub open spec fn from_query_parameter(spec: SpecDocument, params: Seq<ParameterOrRef>, prop: PropertyDefinition) -> bool {
    exists|j: int| 0 <= j < params.len() && (#[trigger] params[j] matches ParameterOrRef::Parameter(p) && query_property_of(
        spec,
        p,
        prop,
    ))
}

/// The query parameters of an operation: one property per query parameter whose type
/// resolves, and the code that collects them into key/value pairs.
pub fn generate_query_parameter_code(
    spec: &SpecDocument,
    operation: &Operation,
    definition_path: &Vec<String>,
    name_mapping: &NameMapping,
    object_database: &mut ObjectDatabase,
    function_name: &str,
) -> (r: Result<QueryParameters, GeneratorError>)
    ensures
        db_extends(*old(object_database), *final(object_database)),
        (exists|k: int| 0 <= k < operation.parameters@.len() && (#[trigger] operation.parameters@[k]) is Unresolved)
            ==> r is Err,
        queries_resolve(*spec, operation.parameters@) ==> r is Ok,
        (exists|j: int| 0 <= j < operation.parameters@.len() && !parameter_well_formed(*spec, #[trigger] operation.parameters@[j]))
            && query_types_resolve(*spec, operation.parameters@) ==> (r matches Err(e) && e is ParameterError),
        r matches Ok(q) ==> (forall|k: int| 0 <= k < q.query_struct.properties@.len() ==> from_query_parameter(
            *spec,
            operation.parameters@,
            #[trigger] q.query_struct.properties@[k],
        )) && (forall|j: int| 0 <= j < operation.parameters@.len() ==> query_param_covered(
            *name_mapping,
            views(definition_path@).push(q.query_struct.name@),
            q.query_struct.properties@,
            #[trigger] operation.parameters@[j],
        )),
        r matches Ok(q) ==> unique_property_names(q.query_struct.properties@) && q.query_struct_variable_name@
            == property_name_of(*name_mapping, views(definition_path@), "query_parameters"@)
            && q.unroll_query_parameters_code@ == query_unroll_code(
            *name_mapping,
            views(definition_path@),
            q.query_struct_variable_name@,
            q.query_struct.properties@,
        ),
{
    let mapping_name = name_mapping.name_to_struct_name(
        definition_path,
        concat(function_name, "QueryParameters").as_str(),
    );
    let package_name = name_mapping.extract_package_name(mapping_name.as_str());
    let struct_name = name_mapping.extract_struct_name(mapping_name.as_str());
    let query_struct_variable_name = name_mapping.name_to_property_name(definition_path, "query_parameters");
    let query_path = push_path(definition_path, &struct_name);
    let mut properties: Vec<PropertyDefinition> = Vec::new();
    let mut i: usize = 0;
    while i < operation.parameters.len()
        invariant
            i <= operation.parameters@.len(),
            forall|k: int| 0 <= k < i ==> !((#[trigger] operation.parameters@[k]) is Unresolved),
            forall|k: int| 0 <= k < i ==> parameter_well_formed(*spec, #[trigger] operation.parameters@[k]),
            unique_property_names(properties@),
            db_extends(*old(object_database), *object_database),
            views(query_path@) == views(definition_path@).push(struct_name@),
            forall|k: int| 0 <= k < properties@.len() ==> from_query_parameter(
                *spec,
                operation.parameters@,
                #[trigger] properties@[k],
            ),
            forall|j: int| 0 <= j < i ==> query_param_covered(
                *name_mapping,
                views(query_path@),
                properties@,
                #[trigger] operation.parameters@[j],
            ),
        decreases operation.parameters@.len() - i,
    {
        let parameter = match &operation.parameters[i] {
            ParameterOrRef::Parameter(p) => p,
            ParameterOrRef::Unresolved(reason) => {
                return Err(GeneratorError::ParameterError("Failed to resolve parameter".to_owned(), reason.clone()));
            },
        };
        if parameter.location != ParameterIn::Query {
            i = i + 1;
            continue;
        }
        let schema = match &parameter.schema {
            Some(schema) => match resolve_schema(spec, schema) {
                Ok(s) => s,
                Err(err) => {
                    return Err(
                        GeneratorError::ParameterError(
                            concat("Failed to resolve parameter ", parameter.name.as_str()),
                            err.message(),
                        ),
                    );
                },
            },
            None => {
                return Err(
                    GeneratorError::ParameterError("Parameter has no schema:".to_owned(), parameter.name.clone()),
                );
            },
        };
        let type_path = copy_path(&query_path);
        let ghost db_before = *object_database;
        let parameter_type = get_type_from_schema(
            spec,
            object_database,
            type_path,
            schema,
            Some(parameter.name.as_str()),
            name_mapping,
            MAX_RESOLUTION_DEPTH,
        );
        proof {
            vstd::map_lib::lemma_submap_of_trans(
                object_entries(*old(object_database)),
                object_entries(db_before),
                object_entries(*object_database),
            );
        }
        match parameter_type {
            Ok(parameter_type) => {
                let property_name = name_mapping.name_to_property_name(&query_path, parameter.name.as_str());
                let property = PropertyDefinition {
                    name: property_name,
                    module: parameter_type.module,
                    real_name: parameter.name.clone(),
                    required: match parameter.required {
                        Some(required) => required,
                        None => false,
                    },
                    property_type: parameter_type.name,
                    description: parameter_type.description,
                    example: parameter_type.example,
                };
                let ghost before = properties@;
                assert(query_property_of(*spec, *parameter, property));
                assert(operation.parameters@[i as int] == ParameterOrRef::Parameter(*parameter));
                crate::resolver::put_property(&mut properties, property);
                assert forall|k: int| 0 <= k < properties@.len() implies from_query_parameter(
                    *spec,
                    operation.parameters@,
                    #[trigger] properties@[k],
                ) by {
                    if properties@[k] != property {
                        let k2 = choose|k2: int| 0 <= k2 < before.len() && before[k2] == properties@[k];
                        assert(from_query_parameter(*spec, operation.parameters@, before[k2]));
                    }
                }
                assert forall|j: int| 0 <= j < i + 1 implies query_param_covered(
                    *name_mapping,
                    views(query_path@),
                    properties@,
                    #[trigger] operation.parameters@[j],
                ) by {
                    if j < i {
                        if let ParameterOrRef::Parameter(p) = operation.parameters@[j] {
                            if p.location == ParameterIn::Query {
                                let k = choose|k: int| 0 <= k < before.len() && (#[trigger] before[k]).name@
                                    == property_name_of(*name_mapping, views(query_path@), p.name@);
                                let k2 = choose|k2: int| 0 <= k2 < properties@.len()
                                    && (#[trigger] properties@[k2]).name@ == before[k].name@;
                            }
                        }
                    }
                }
            },
            Err(err) => {
                assert(!query_types_resolve(*spec, operation.parameters@)) by {
                    assert(operation.parameters@[i as int] == ParameterOrRef::Parameter(*parameter));
                }
                return Err(err);
            },
        }
        i = i + 1;
    }
    let unroll_query_parameters_code = query_code(
        name_mapping,
        definition_path,
        &query_struct_variable_name,
        &properties,
    );
    Ok(
        QueryParameters {
            query_struct: StructDefinition {
                package: package_name,
                name: struct_name,
                properties,
                used_modules: Vec::new(),
                local_objects: Vec::new(),
                description: None,
            },
            query_struct_variable_name,
            unroll_query_parameters_code,
        },
    )
}


/// What a modeled operation records of its call: method, URL template and whether it streams.
pub open spec fn models_call(pd: PathDefinition, name: Seq<char>, method: Method, url: Seq<char>, streaming: bool) -> bool {
    pd.name@ == name && pd.method == method && pd.url@ == url && (pd.stream is Some) == streaming
}

/// The stored operation holds what modeling gave: the URL format string, one response entity
/// per status key with its canonical name, the query code, and a request body and entity
/// exactly where the operation has a request body.
pub open spec fn stores_operation(mapping: NameMapping, path: Seq<char>, op: Operation, pd: PathDefinition) -> bool {
    &&& pd.path_parameters.path_format_string@ == url_format(path)
    &&& entity_keys(pd.response_entities@) == response_keys(op.responses@)
    &&& forall|j: int| 0 <= j < pd.response_entities@.len() ==> canonical_name_of(
        mapping,
        (#[trigger] pd.response_entities@[j]).0@,
    ) == Some(pd.response_entities@[j].1.canonical_status_code@)
    &&& pd.query_parameters.unroll_query_parameters_code@ == query_unroll_code(
        mapping,
        seq![path],
        pd.query_parameters.query_struct_variable_name@,
        pd.query_parameters.query_struct.properties@,
    )
    &&& (pd.request_entity is Some) == (op.request_body is Some)
    &&& (pd.request_body is Some) == (op.request_body is Some)
}

fn operation_description(operation: &Operation) -> (r: String) {
    match &operation.description {
        Some(d) => d.clone(),
        None => match &operation.summary {
            Some(s) => s.clone(),
            None => String::new(),
        },
    }
}

/// Models one request/response operation and records it in the path database under its
/// converted `operationId`; an operation without one is rejected.
pub fn generate_operation(
    spec: &SpecDocument,
    name_mapping: &NameMapping,
    method: Method,
    path: &str,
    operation: &Operation,
    object_database: &mut ObjectDatabase,
    path_database: &mut PathDatabase,
) -> (r: Result<String, GeneratorError>)
    ensures
        db_extends(*old(object_database), *final(object_database)),
        operation.operation_id is None ==> (r matches Err(e) && e is MissingIdError) && object_entries(
            *final(object_database),
        ) == object_entries(*old(object_database)),
        r is Err ==> path_entries(*final(path_database)) == path_entries(*old(path_database)),
        r matches Ok(n) ==> operation.operation_id matches Some(id) && n@ == module_name_of(*name_mapping, id@)
            && path_entries(*final(path_database)).contains_key(n@) && path_entries(*final(path_database)).remove(n@)
            == path_entries(*old(path_database)).remove(n@) && models_call(
            path_entries(*final(path_database))[n@],
            n@,
            method,
            path@,
            false,
        ),
        operation.operation_id is Some && all_statuses_named(*name_mapping, operation.responses@) && queries_resolve(
            *spec,
            operation.parameters@,
        ) && (operation.request_body matches Some(b) ==> request_body_resolves(*spec, b)) ==> r is Ok,
        r matches Ok(n) ==> stores_operation(
            *name_mapping,
            path@,
            *operation,
            path_entries(*final(path_database))[n@],
        ),
{
    let operation_definition_path: Vec<String> = vec![path.to_owned()];
    let function_name = match &operation.operation_id {
        Some(operation_id) => name_mapping.name_to_module_name(operation_id.as_str()),
        None => {
            return Err(GeneratorError::MissingIdError("operation_id".to_owned(), path.to_owned()));
        },
    };
    let ghost db0 = *object_database;
    let response_entities = match generate_responses(
        spec,
        object_database,
        &operation_definition_path,
        name_mapping,
        &operation.responses,
        function_name.as_str(),
    ) {
        Ok(entities) => entities,
        Err(err) => {
            return Err(err);
        },
    };
    let path_parameters = match generate_path_parameters(
        spec,
        operation,
        &operation_definition_path,
        name_mapping,
        function_name.as_str(),
        path,
    ) {
        Ok(p) => p,
        Err(err) => {
            return Err(err);
        },
    };
    let ghost db1 = *object_database;
    let query_parameters = match generate_query_parameter_code(
        spec,
        operation,
        &operation_definition_path,
        name_mapping,
        object_database,
        function_name.as_str(),
    ) {
        Ok(q) => q,
        Err(err) => {
            proof {
                vstd::map_lib::lemma_submap_of_trans(object_entries(db0), object_entries(db1), object_entries(*object_database));
            }
            return Err(err);
        },
    };
    proof {
        vstd::map_lib::lemma_submap_of_trans(object_entries(db0), object_entries(db1), object_entries(*object_database));
    }
    let ghost db2 = *object_database;
    let request_entity = match &operation.request_body {
        Some(request_body) => match generate_request_body_entity(
            spec,
            object_database,
            &operation_definition_path,
            name_mapping,
            request_body,
            function_name.as_str(),
        ) {
            Ok(entity) => Some(entity),
            Err(err) => {
                proof {
                    vstd::map_lib::lemma_submap_of_trans(object_entries(db0), object_entries(db2), object_entries(*object_database));
                }
                return Err(GeneratorError::CodeGenerationError("request body".to_owned(), err.message()));
            },
        },
        None => None,
    };
    proof {
        vstd::map_lib::lemma_submap_of_trans(object_entries(db0), object_entries(db2), object_entries(*object_database));
    }
    let ghost db3 = *object_database;
    let request_body = match &operation.request_body {
        Some(request_body) => match generate_request_body(
            spec,
            object_database,
            &operation_definition_path,
            name_mapping,
            request_body,
            function_name.as_str(),
        ) {
            Ok(body) => Some(body),
            Err(err) => {
                proof {
                    vstd::map_lib::lemma_submap_of_trans(object_entries(db0), object_entries(db3), object_entries(*object_database));
                }
                return Err(GeneratorError::CodeGenerationError("request body".to_owned(), err.message()));
            },
        },
        None => None,
    };
    proof {
        vstd::map_lib::lemma_submap_of_trans(object_entries(db0), object_entries(db3), object_entries(*object_database));
    }
    let path_definition = PathDefinition {
        package: String::new(),
        name: function_name.clone(),
        method,
        url: path.to_owned(),
        response_name: String::new(),
        used_modules: vec![ModuleInfo { name: "reqwest".to_owned(), path: String::new() }],
        request_body,
        request_entity,
        local_objects: Vec::new(),
        description: operation_description(operation),
        response_entities,
        path_parameters,
        query_parameters,
        stream: None,
    };
    let ghost stored = path_definition;
    assert(views(operation_definition_path@) =~= seq![path@]);
    assert(stores_operation(*name_mapping, path@, *operation, stored));
    insert_path(path_database, function_name.clone(), path_definition);
    assert(path_entries(*path_database).remove(function_name@) =~= path_entries(*old(path_database)).remove(
        function_name@,
    ));
    Ok(function_name)
}


/// The name of the variant of a call for one content type.
pub fn media_type_enum_name(
    definition_path: &Vec<String>,
    name_mapping: &NameMapping,
    transfer_media_type: &TransferMediaType,
) -> (r: String)
    ensures
        r@ == struct_name_of(
            *name_mapping,
            views(definition_path@),
            match transfer_media_type {
                TransferMediaType::ApplicationJson(_) => "Json"@,
                TransferMediaType::TextPlain => "Text"@,
            },
        ),
{
    let name = match transfer_media_type {
        TransferMediaType::ApplicationJson(_) => "Json",
        TransferMediaType::TextPlain => "Text",
    };
    name_mapping.name_to_struct_name(definition_path, name)
}


/// The name of a content type's body kind.
pub open spec fn media_word(t: TransferMediaType) -> Seq<char> {
    match t {
        TransferMediaType::ApplicationJson(_) => "Json"@,
        TransferMediaType::TextPlain => "Text"@,
    }
}

/// The HTTP method in lower case, as the client's builder names it.
pub open spec fn method_call(m: Method) -> Seq<char> {
    match m {
        Method::GET => "get"@,
        Method::POST => "post"@,
        Method::PUT => "put"@,
        Method::DELETE => "delete"@,
        Method::PATCH => "patch"@,
        Method::HEAD => "head"@,
        Method::OPTIONS => "options"@,
        Method::TRACE => "trace"@,
    }
}

fn method_call_name(m: Method) -> (r: &'static str)
    ensures
        r@ == method_call(m),
{
    match m {
        Method::GET => "get",
        Method::POST => "post",
        Method::PUT => "put",
        Method::DELETE => "delete",
        Method::PATCH => "patch",
        Method::HEAD => "head",
        Method::OPTIONS => "options",
        Method::TRACE => "trace",
    }
}

/// The parameter that carries the body of one content type.
pub open spec fn content_parameter(content: Seq<char>, t: TransferMediaType) -> Seq<Seq<char>> {
    match t {
        TransferMediaType::ApplicationJson(Some(td)) => seq![content + ": "@ + td.name@],
        TransferMediaType::ApplicationJson(None) => Seq::empty(),
        TransferMediaType::TextPlain => seq![content + ": &String"@],
    }
}

/// The parameters of the call variant for one content type.
pub open spec fn variant_parameters(
    path_parameters: PathParameters,
    query_parameters: QueryParameters,
    content: Seq<char>,
    t: TransferMediaType,
) -> Seq<Seq<char>> {
    seq!["client: &reqwest::Client"@, "server: &str"@] + (if path_parameters.parameters_struct.properties@.len() > 0 {
        seq![path_parameters.parameters_struct_variable_name@ + ": &"@ + path_parameters.parameters_struct.name@]
    } else {
        Seq::empty()
    }) + (if query_parameters.query_struct.properties@.len() > 0 {
        seq![query_parameters.query_struct_variable_name@ + ": &"@ + query_parameters.query_struct.name@]
    } else {
        Seq::empty()
    }) + content_parameter(content, t)
}

/// The arguments that fill the URL format string.
pub open spec fn path_arguments(
    mapping: NameMapping,
    path: Seq<Seq<char>>,
    path_parameters: PathParameters,
) -> Seq<Seq<char>> {
    path_parameters.parameters_struct.properties@.map_values(
        |p: PropertyDefinition| path_parameters.parameters_struct_variable_name@ + "."@ + property_name_of(mapping, path, p.name@),
    )
}

/// How the body is attached to the request.
pub open spec fn body_attachment(content: Seq<char>, t: TransferMediaType) -> Seq<char> {
    match t {
        TransferMediaType::ApplicationJson(Some(_)) => ".json(&"@ + content + ")"@,
        TransferMediaType::ApplicationJson(None) => ".json(&serde_json::json!({}))"@,
        TransferMediaType::TextPlain => ".body(body)"@,
    }
}

pub open spec fn call_arguments(query_parameters: QueryParameters) -> Seq<Seq<char>> {
    if query_parameters.query_struct.properties@.len() == 0 {
        seq!["request_builder"@]
    } else {
        seq!["request_builder"@, query_parameters.query_struct_variable_name@]
    }
}

/// The source of the call variant for one content type.
pub open spec fn variant_source(
    mapping: NameMapping,
    path: Seq<Seq<char>>,
    function_name: Seq<char>,
    path_parameters: PathParameters,
    query_parameters: QueryParameters,
    response_enum_name: Seq<char>,
    method: Method,
    t: TransferMediaType,
) -> Seq<char> {
    let content_function_name = property_name_of(
        mapping,
        path,
        function_name + struct_name_of(mapping, path, media_word(t)),
    );
    let name = snake_of(last_or_empty(special_parts(content_function_name)));
    let content = property_name_of(mapping, path, "content"@);
    "pub async fn "@ + name + "("@ + joined(variant_parameters(path_parameters, query_parameters, content, t), ", "@)
        + ") -> Result<"@ + response_enum_name + ", reqwest::Error> {\n"@ + (if t is TextPlain {
        "  let body = "@ + content + ".to_owned();\n"@
    } else {
        Seq::empty()
    }) + "  let request_builder = client."@ + method_call(method) + "(format!(\"{server}"@
        + path_parameters.path_format_string@ + "\", "@ + joined(path_arguments(mapping, path, path_parameters), ","@)
        + "))"@ + body_attachment(content, t) + ";\n"@ + name + "("@ + joined(call_arguments(query_parameters), ","@)
        + ").await"@ + "}\n"@
}

/// The call variants for the content types, in order.
pub open spec fn variants_source(
    mapping: NameMapping,
    path: Seq<Seq<char>>,
    function_name: Seq<char>,
    path_parameters: PathParameters,
    query_parameters: QueryParameters,
    response_enum_name: Seq<char>,
    method: Method,
    contents: Seq<(String, TransferMediaType)>,
) -> Seq<char>
    decreases contents.len(),
{
    if contents.len() == 0 {
        Seq::empty()
    } else {
        variants_source(
            mapping,
            path,
            function_name,
            path_parameters,
            query_parameters,
            response_enum_name,
            method,
            contents.drop_last(),
        ) + variant_source(
            mapping,
            path,
            function_name,
            path_parameters,
            query_parameters,
            response_enum_name,
            method,
            contents.last().1,
        )
    }
}

/// The imports after those of the JSON body types have been added, each unless an equal one
/// is already there.
pub open spec fn imports_after(imports: Seq<ModuleInfo>, contents: Seq<(String, TransferMediaType)>) -> Seq<ModuleInfo>
    decreases contents.len(),
{
    if contents.len() == 0 {
        imports
    } else {
        let before = imports_after(imports, contents.drop_last());
        match contents.last().1 {
            TransferMediaType::ApplicationJson(Some(td)) => match td.module {
                Some(m) => if has_same_module(before, m) {
                    before
                } else {
                    before.push(m)
                },
                None => before,
            },
            _ => before,
        }
    }
}

fn variant_parameter_list(
    path_parameters: &PathParameters,
    query_parameters: &QueryParameters,
    content: &String,
    t: &TransferMediaType,
) -> (r: Vec<String>)
    ensures
        views(r@) == variant_parameters(*path_parameters, *query_parameters, content@, *t),
{
    let mut params: Vec<String> = vec!["client: &reqwest::Client".to_owned(), "server: &str".to_owned()];
    let ghost base = views(params@);
    assert(base =~= seq!["client: &reqwest::Client"@, "server: &str"@]);
    if path_parameters.parameters_struct.properties.len() > 0 {
        let mut p = path_parameters.parameters_struct_variable_name.clone();
        p.append(": &");
        p.append(path_parameters.parameters_struct.name.as_str());
        params.push(p);
    }
    let ghost with_path = views(params@);
    if query_parameters.query_struct.properties.len() > 0 {
        let mut q = query_parameters.query_struct_variable_name.clone();
        q.append(": &");
        q.append(query_parameters.query_struct.name.as_str());
        params.push(q);
    }
    let ghost with_query = views(params@);
    match t {
        TransferMediaType::ApplicationJson(Some(td)) => {
            let mut c = content.clone();
            c.append(": ");
            c.append(td.name.as_str());
            params.push(c);
        },
        TransferMediaType::ApplicationJson(None) => {},
        TransferMediaType::TextPlain => {
            let mut c = content.clone();
            c.append(": &String");
            params.push(c);
        },
    }
    assert(views(params@) =~= variant_parameters(*path_parameters, *query_parameters, content@, *t));
    params
}

fn path_argument_list(
    name_mapping: &NameMapping,
    definition_path: &Vec<String>,
    path_parameters: &PathParameters,
) -> (r: Vec<String>)
    ensures
        views(r@) == path_arguments(*name_mapping, views(definition_path@), *path_parameters),
{
    let props = &path_parameters.parameters_struct.properties;
    let mut args: Vec<String> = Vec::new();
    let mut i: usize = 0;
    while i < props.len()
        invariant
            props == path_parameters.parameters_struct.properties,
            i <= props@.len(),
            views(args@) == path_arguments(*name_mapping, views(definition_path@), *path_parameters).take(i as int),
        decreases props@.len() - i,
    {
        let mut a = path_parameters.parameters_struct_variable_name.clone();
        a.append(".");
        let field = name_mapping.name_to_property_name(definition_path, props[i].name.as_str());
        a.append(field.as_str());
        let ghost before = views(args@);
        assert(path_arguments(*name_mapping, views(definition_path@), *path_parameters)[i as int] == a@);
        args.push(a);
        assert(views(args@) =~= before.push(path_arguments(*name_mapping, views(definition_path@), *path_parameters)[i as int]));
        assert(views(args@) =~= path_arguments(*name_mapping, views(definition_path@), *path_parameters).take(i + 1));
        i = i + 1;
    }
    assert(path_arguments(*name_mapping, views(definition_path@), *path_parameters).take(props@.len() as int)
        =~= path_arguments(*name_mapping, views(definition_path@), *path_parameters));
    args
}

fn add_body_import(module_imports: &mut Vec<ModuleInfo>, t: &TransferMediaType)
    ensures
        final(module_imports)@ == match *t {
            TransferMediaType::ApplicationJson(Some(td)) => match td.module {
                Some(m) => if has_same_module(old(module_imports)@, m) {
                    old(module_imports)@
                } else {
                    old(module_imports)@.push(m)
                },
                None => old(module_imports)@,
            },
            _ => old(module_imports)@,
        },
{
    if let TransferMediaType::ApplicationJson(Some(td)) = t {
        if let Some(m) = &td.module {
            if !crate::types::contains_module(module_imports, m) {
                module_imports.push(m.copied());
            }
        }
    }
}

fn variant_source_text(
    definition_path: &Vec<String>,
    name_mapping: &NameMapping,
    function_name: &str,
    path_parameters: &PathParameters,
    query_parameter_code: &QueryParameters,
    response_enum_name: &str,
    method: Method,
    content: &String,
    t: &TransferMediaType,
) -> (r: String)
    requires
        content@ == property_name_of(*name_mapping, views(definition_path@), "content"@),
    ensures
        r@ == variant_source(
            *name_mapping,
            views(definition_path@),
            function_name@,
            *path_parameters,
            *query_parameter_code,
            response_enum_name@,
            method,
            *t,
        ),
{
    let media = media_type_enum_name(definition_path, name_mapping, t);
    let content_function_name = name_mapping.name_to_property_name(
        definition_path,
        concat(function_name, media.as_str()).as_str(),
    );
    let name = name_mapping.extract_function_name(content_function_name.as_str());
    let params = variant_parameter_list(path_parameters, query_parameter_code, content, t);
    let mut source = "pub async fn ".to_owned();
    source.append(name.as_str());
    source.append("(");
    source.append(join(&params, ", ").as_str());
    source.append(") -> Result<");
    source.append(response_enum_name);
    source.append(", reqwest::Error> {\n");
    let ghost head = source@;
    if let TransferMediaType::TextPlain = t {
        source.append("  let body = ");
        source.append(content.as_str());
        source.append(".to_owned();\n");
    }
    let ghost with_body = source@;
    source.append("  let request_builder = client.");
    source.append(method_call_name(method));
    source.append("(format!(\"{server}");
    source.append(path_parameters.path_format_string.as_str());
    source.append("\", ");
    source.append(join(&path_argument_list(name_mapping, definition_path, path_parameters), ",").as_str());
    source.append("))");
    let ghost with_call = source@;
    match t {
        TransferMediaType::ApplicationJson(Some(_)) => {
            source.append(".json(&");
            source.append(content.as_str());
            source.append(")");
        },
        TransferMediaType::ApplicationJson(None) => {
            source.append(".json(&serde_json::json!({}))");
        },
        TransferMediaType::TextPlain => {
            source.append(".body(body)");
        },
    }
    assert(source@ =~= with_call + body_attachment(content@, *t));
    source.append(";\n");
    source.append(name.as_str());
    source.append("(");
    let call_args = if query_parameter_code.query_struct.properties.len() == 0 {
        vec!["request_builder".to_owned()]
    } else {
        vec!["request_builder".to_owned(), query_parameter_code.query_struct_variable_name.clone()]
    };
    assert(views(call_args@) =~= call_arguments(*query_parameter_code));
    source.append(join(&call_args, ",").as_str());
    source.append(").await");
    source.append("}\n");
    assert(source@ =~= variant_source(
        *name_mapping,
        views(definition_path@),
        function_name@,
        *path_parameters,
        *query_parameter_code,
        response_enum_name@,
        method,
        *t,
    ));
    source
}

/// One call variant per content type of a request body that offers two or more: each takes
/// that body as its own parameter. The imports of the JSON body types are added to
/// `module_imports`.
pub fn generate_multi_request_type_functions(
    definition_path: &Vec<String>,
    name_mapping: &NameMapping,
    function_name: &str,
    path_parameters: &PathParameters,
    module_imports: &mut Vec<ModuleInfo>,
    query_parameter_code: &QueryParameters,
    response_enum_name: &str,
    method: Method,
    request_entity: &RequestEntity,
) -> (r: Option<String>)
    ensures
        request_entity.content@.len() < 2 ==> (r is None && final(module_imports)@ == old(module_imports)@),
        request_entity.content@.len() >= 2 ==> (r matches Some(code) && code@ == variants_source(
            *name_mapping,
            views(definition_path@),
            function_name@,
            *path_parameters,
            *query_parameter_code,
            response_enum_name@,
            method,
            request_entity.content@,
        ) && final(module_imports)@ == imports_after(old(module_imports)@, request_entity.content@)),
{
    if request_entity.content.len() < 2 {
        return None;
    }
    let contents = &request_entity.content;
    let content = name_mapping.name_to_property_name(definition_path, "content");
    let mut source = String::new();
    let mut i: usize = 0;
    while i < contents.len()
        invariant
            contents == request_entity.content,
            i <= contents@.len(),
            content@ == property_name_of(*name_mapping, views(definition_path@), "content"@),
            source@ == variants_source(
                *name_mapping,
                views(definition_path@),
                function_name@,
                *path_parameters,
                *query_parameter_code,
                response_enum_name@,
                method,
                contents@.take(i as int),
            ),
            module_imports@ == imports_after(old(module_imports)@, contents@.take(i as int)),
        decreases contents@.len() - i,
    {
        let t = &contents[i].1;
        assert(contents@.take(i + 1).drop_last() =~= contents@.take(i as int));
        assert(contents@.take(i + 1).last() == contents@[i as int]);
        add_body_import(module_imports, t);
        let variant = variant_source_text(
            definition_path,
            name_mapping,
            function_name,
            path_parameters,
            query_parameter_code,
            response_enum_name,
            method,
            &content,
            t,
        );
        source.append(variant.as_str());
        i = i + 1;
    }
    assert(contents@.take(contents@.len() as int) =~= contents@);
    Some(source)
}

} // verus!
