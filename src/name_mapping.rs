//! Conversion of raw schema identifiers into target-language names.
use crate::casing::{pascal_of, snake_of, to_pascal, to_snake, upper_char, is_upper};
use crate::text::{
    contains, ends_with, eq_ignore_ascii_case, eq_ignore_case, is_suffix, joined, join, occurs_in,
    replace, replaced, split, split_on, starts_with, str_eq, trim_start_matches, trimmed_start, views,
    is_prefix, lemma_split_nonempty,
};
use crate::errors::GeneratorError;
use vstd::prelude::*;
use vstd::string::*;

verus! {

/// Override tables and switches consulted when names are converted.
#[derive(Clone, Debug)]
pub struct NameMapping {
    pub struct_mapping: Vec<(String, String)>,
    pub property_mapping: Vec<(String, String)>,
    pub property_type_mapping: Vec<(String, Vec<(String, String)>)>,
    pub module_mapping: Vec<(String, String)>,
    pub status_code_mapping: Vec<(String, String)>,
    pub i32_to_u32: bool,
    /// Use scope for module names.
    pub use_scope: bool,
}

/// Position of the first entry of `table` whose key is `key`.
pub open spec fn key_index<V>(table: Seq<(String, V)>, key: Seq<char>) -> Option<nat>
    decreases table.len(),
{
    if table.len() == 0 {
        None
    } else if table[0].0@ == key {
        Some(0)
    } else {
        match key_index(table.subrange(1, table.len() as int), key) {
            Some(i) => Some(i + 1),
            None => None,
        }
    }
}

/// The value of the first entry of `table` whose key is `key`.
pub open spec fn lookup(table: Seq<(String, String)>, key: Seq<char>) -> Option<Seq<char>> {
    match key_index(table, key) {
        Some(i) => Some(table[i as int].1@),
        None => None,
    }
}

proof fn lemma_key_index<V>(table: Seq<(String, V)>, key: Seq<char>, i: int)
    requires
        0 <= i <= table.len(),
        forall|j: int| 0 <= j < i ==> (#[trigger] table[j]).0@ != key,
    ensures
        i < table.len() && table[i].0@ == key ==> key_index(table, key) == Some(i as nat),
        i == table.len() ==> key_index(table, key) is None,
    decreases i,
{
    if i > 0 {
        let t = table.subrange(1, table.len() as int);
        assert forall|j: int| 0 <= j < i - 1 implies (#[trigger] t[j]).0@ != key by {
            assert(t[j] == table[j + 1]);
        }
        lemma_key_index(t, key, i - 1);
        assert(table[0].0@ != key);
        if i < table.len() {
            assert(t[i - 1] == table[i]);
        }
    } else if table.len() > 0 && i < table.len() {
    }
}

pub fn key_position<V>(table: &Vec<(String, V)>, key: &str) -> (r: Option<usize>)
    ensures
        match r {
            Some(i) => key_index(table@, key@) == Some(i as nat) && i < table@.len(),
            None => key_index(table@, key@) is None,
        },
{
    let mut i: usize = 0;
    while i < table.len()
        invariant
            i <= table@.len(),
            forall|j: int| 0 <= j < i ==> (#[trigger] table@[j]).0@ != key@,
        decreases table@.len() - i,
    {
        if str_eq(table[i].0.as_str(), key) {
            proof {
                lemma_key_index(table@, key@, i as int);
            }
            return Some(i);
        }
        i = i + 1;
    }
    proof {
        lemma_key_index(table@, key@, i as int);
    }
    None
}

pub fn table_get(table: &Vec<(String, String)>, key: &str) -> (r: Option<String>)
    ensures
        match r {
            Some(v) => lookup(table@, key@) == Some(v@),
            None => lookup(table@, key@) is None,
        },
{
    match key_position(table, key) {
        Some(i) => Some(table[i].1.clone()),
        None => None,
    }
}

pub open spec fn is_special(c: char) -> bool {
    c == '.' || c == ':'
}

pub open spec fn nonempty_piece(cur: Seq<char>) -> Seq<Seq<char>> {
    if cur.len() == 0 {
        Seq::empty()
    } else {
        seq![cur]
    }
}

/// Pieces of `s` between `.` and `:` characters, where `cur` is the piece gathered so far;
/// empty pieces are dropped.
pub open spec fn special_parts_from(s: Seq<char>, cur: Seq<char>) -> Seq<Seq<char>>
    decreases s.len(),
{
    if s.len() == 0 {
        nonempty_piece(cur)
    } else if is_special(s[0]) {
        nonempty_piece(cur) + special_parts_from(s.subrange(1, s.len() as int), Seq::empty())
    } else {
        special_parts_from(s.subrange(1, s.len() as int), cur.push(s[0]))
    }
}

pub open spec fn special_parts(s: Seq<char>) -> Seq<Seq<char>> {
    special_parts_from(s, Seq::empty())
}

/// Splits a name on `.` and `:`, dropping empty pieces.
pub fn split_on_special_chars(name: &str) -> (r: Vec<String>)
    ensures
        views(r@) == special_parts(name@),
{
    let n = name.unicode_len();
    let mut parts: Vec<String> = Vec::new();
    let mut start: usize = 0;
    let mut i: usize = 0;
    assert(name@.subrange(0, n as int) =~= name@);
    assert(views(parts@) =~= Seq::empty());
    assert(name@.subrange(0, 0) =~= Seq::<char>::empty());
    while i < n
        invariant
            n == name@.len(),
            start <= i <= n,
            views(parts@) + special_parts_from(name@.subrange(i as int, n as int), name@.subrange(start as int, i as int))
                == special_parts(name@),
        decreases n - i,
    {
        let ghost t = name@.subrange(i as int, n as int);
        let ghost cur = name@.subrange(start as int, i as int);
        assert(t.subrange(1, t.len() as int) =~= name@.subrange(i + 1, n as int));
        let c = name.get_char(i);
        if c == '.' || c == ':' {
            let ghost before = parts@;
            if start < i {
                parts.push(name.substring_char(start, i).to_owned());
                assert(views(parts@) =~= views(before) + seq![cur]);
            } else {
                assert(views(parts@) =~= views(before) + Seq::<Seq<char>>::empty());
            }
            let ghost rest = special_parts_from(name@.subrange(i + 1, n as int), Seq::empty());
            assert(views(parts@) + rest =~= views(before) + (nonempty_piece(cur) + rest));
            assert(name@.subrange(i + 1, i + 1) =~= Seq::<char>::empty());
            i = i + 1;
            start = i;
        } else {
            assert(cur.push(t[0]) =~= name@.subrange(start as int, i + 1));
            i = i + 1;
        }
    }
    let ghost before = parts@;
    let ghost cur = name@.subrange(start as int, n as int);
    if start < n {
        parts.push(name.substring_char(start, n).to_owned());
        assert(views(parts@) =~= views(before) + seq![cur]);
    } else {
        assert(views(parts@) =~= views(before) + Seq::<Seq<char>>::empty());
    }
    parts
}

/// The first `k` parts joined with `sep`.
pub fn join_first(parts: &Vec<String>, k: usize, sep: &str) -> (r: String)
    requires
        k <= parts@.len(),
    ensures
        r@ == joined(views(parts@).take(k as int), sep@),
{
    let mut out = String::new();
    let mut i: usize = 0;
    while i < k
        invariant
            k <= parts@.len(),
            i <= k,
            out@ == joined(views(parts@).take(i as int), sep@),
        decreases k - i,
    {
        let ghost pre = views(parts@).take(i as int);
        let ghost next = views(parts@).take(i + 1);
        assert(next.drop_last() =~= pre);
        if i > 0 {
            out.append(sep);
        }
        out.append(parts[i].as_str());
        i = i + 1;
    }
    out
}

/// A name whose last `.` or `:` separated piece is turned to PascalCase.
pub open spec fn converted_name(name: Seq<char>) -> Seq<char> {
    let tokens = special_parts(name);
    if tokens.len() == 1 {
        pascal_of(name)
    } else if tokens.len() == 0 {
        Seq::empty()
    } else {
        joined(tokens.drop_last(), "::"@) + "::"@ + pascal_of(tokens.last())
    }
}

pub fn convert_name(name: &str) -> (r: String)
    ensures
        r@ == converted_name(name@),
{
    let tokens = split_on_special_chars(name);
    if tokens.len() == 1 {
        return to_pascal(name);
    }
    if tokens.len() == 0 {
        return String::new();
    }
    let mut converted = join_first(&tokens, tokens.len() - 1, "::");
    converted.append("::");
    let last = to_pascal(tokens[tokens.len() - 1].as_str());
    converted.append(last.as_str());
    proof {
        let v = views(tokens@);
        assert(v.take(v.len() - 1) =~= v.drop_last());
    }
    converted
}

/// `s` ends with `sep` followed by one digit from 0 to 8.
pub open spec fn has_index_suffix(s: Seq<char>, sep: Seq<char>) -> bool {
    s.len() >= 1 && '0' <= s.last() && s.last() <= '8' && is_suffix(sep, s.drop_last())
}

/// `s` with an index suffix (`sep` and a digit) shortened by two characters.
pub open spec fn strip_index_suffix(s: Seq<char>, sep: Seq<char>) -> Seq<char> {
    if has_index_suffix(s, sep) && s.len() >= 2 {
        s.subrange(0, s.len() - 2)
    } else {
        s
    }
}

fn strip_index(s: &str, sep: &str) -> (r: String)
    ensures
        r@ == strip_index_suffix(s@, sep@),
{
    let n = s.unicode_len();
    if n >= 2 {
        let c = s.get_char(n - 1);
        if '0' <= c && c <= '8' && ends_with(s.substring_char(0, n - 1), sep) {
            assert(s@.subrange(0, n - 1) =~= s@.drop_last());
            return s.substring_char(0, n - 2).to_owned();
        }
        assert(s@.subrange(0, n - 1) =~= s@.drop_last());
    } else if n == 1 {
        assert(!has_index_suffix(s@, sep@) || s@.len() < 2);
    }
    s.to_owned()
}

pub open spec fn scope_prefix(use_scope: bool) -> Seq<char> {
    if use_scope {
        "common::"@
    } else {
        "models::"@
    }
}

pub open spec fn trimmed_parts(parts: Seq<Seq<char>>) -> Seq<Seq<char>> {
    parts.map_values(|p: Seq<char>| trimmed_start(p, "_"@))
}

/// A struct name with `.` turned into `::`, `___` separators resolved, an index suffix
/// removed and a default namespace added where it has none.
pub open spec fn fixed_struct_name(name: Seq<char>, use_scope: bool) -> Seq<char> {
    let n1 = replaced(name, "."@, "::"@);
    if occurs_in(n1, "___"@) {
        joined(trimmed_parts(split_on(n1, "___"@)), "::"@)
    } else {
        let n2 = strip_index_suffix(n1, "::"@);
        if occurs_in(n2, "::"@) {
            n2
        } else {
            scope_prefix(use_scope) + n2
        }
    }
}

pub fn fix_struct_names(name: &str, use_scope: bool) -> (r: String)
    ensures
        r@ == fixed_struct_name(name@, use_scope),
{
    proof {
        reveal_strlit(".");
        reveal_strlit("___");
        reveal_strlit("::");
    }
    let replaced_name = replace(name, ".", "::");
    if contains(replaced_name.as_str(), "___") {
        let parts = split(replaced_name.as_str(), "___");
        let mut trimmed: Vec<String> = Vec::new();
        let mut i: usize = 0;
        while i < parts.len()
            invariant
                i <= parts@.len(),
                views(trimmed@) == trimmed_parts(views(parts@)).take(i as int),
            decreases parts@.len() - i,
        {
            let ghost before = trimmed@;
            trimmed.push(trim_start_matches(parts[i].as_str(), "_"));
            assert(views(trimmed@) =~= views(before).push(trimmed_start(parts@[i as int]@, "_"@)));
            assert(trimmed_parts(views(parts@)).take(i + 1) =~= trimmed_parts(views(parts@)).take(
                i as int,
            ).push(trimmed_start(parts@[i as int]@, "_"@)));
            i = i + 1;
        }
        assert(trimmed_parts(views(parts@)).take(parts@.len() as int) =~= trimmed_parts(views(parts@)));
        return join(&trimmed, "::");
    }
    let stripped = strip_index(replaced_name.as_str(), "::");
    if contains(stripped.as_str(), "::") {
        return stripped;
    }
    let mut out = if use_scope {
        "common::".to_owned()
    } else {
        "models::".to_owned()
    };
    out.append(stripped.as_str());
    out
}

/// The override-table key of `token` under the definition path `path`.
pub open spec fn path_string(path: Seq<Seq<char>>, token: Seq<char>) -> Seq<char> {
    let p = joined(path, "/"@);
    let raw = if p.len() == 0 {
        "/"@ + token
    } else {
        "/"@ + p + "/"@ + token
    };
    replaced(raw, "//"@, "/"@)
}

pub fn path_to_string(path: &Vec<String>, token_name: &str) -> (r: String)
    ensures
        r@ == path_string(views(path@), token_name@),
{
    proof {
        reveal_strlit("//");
    }
    let path_str = join(path, "/");
    let mut raw = "/".to_owned();
    if path_str.unicode_len() > 0 {
        raw.append(path_str.as_str());
        raw.append("/");
    }
    raw.append(token_name);
    replace(raw.as_str(), "//", "/")
}

/// The built-in scalar names of the target language.
pub open spec fn primitive_names() -> Seq<Seq<char>> {
    seq![
        "bool"@,
        "char"@,
        "f32"@,
        "f64"@,
        "i8"@,
        "i16"@,
        "i32"@,
        "i64"@,
        "u8"@,
        "u16"@,
        "u32"@,
        "u64"@,
        "String"@,
    ]
}

/// The built-in scalar names of the target language, in the order of `primitive_names`.
pub fn primitive_type_names() -> (r: Vec<&'static str>)
    ensures
        r@.map_values(|s: &str| s@) == primitive_names(),
{
    let names: Vec<&'static str> = vec![
        "bool",
        "char",
        "f32",
        "f64",
        "i8",
        "i16",
        "i32",
        "i64",
        "u8",
        "u16",
        "u32",
        "u64",
        "String",
    ];
    assert(names@.map_values(|s: &str| s@) =~= primitive_names());
    names
}

/// The first built-in scalar name in `names` equal to `name` up to ASCII case.
pub open spec fn first_match(names: Seq<Seq<char>>, name: Seq<char>) -> Option<Seq<char>>
    decreases names.len(),
{
    if names.len() == 0 {
        None
    } else if eq_ignore_case(name, names[0]) {
        Some(names[0])
    } else {
        first_match(names.subrange(1, names.len() as int), name)
    }
}

pub open spec fn primitive_match(name: Seq<char>) -> Option<Seq<char>> {
    first_match(primitive_names(), name)
}

fn primitive_type_of(name: &str) -> (r: Option<String>)
    ensures
        match r {
            Some(p) => primitive_match(name@) == Some(p@),
            None => primitive_match(name@) is None,
        },
{
    let names = primitive_type_names();
    let ghost all = names@.map_values(|s: &str| s@);
    assert(all.subrange(0, all.len() as int) =~= all);
    let mut i: usize = 0;
    while i < names.len()
        invariant
            i <= names@.len(),
            all == names@.map_values(|s: &str| s@),
            first_match(all.subrange(i as int, all.len() as int), name@) == primitive_match(name@),
        decreases names@.len() - i,
    {
        let ghost t = all.subrange(i as int, all.len() as int);
        assert(t.subrange(1, t.len() as int) =~= all.subrange(i + 1, all.len() as int));
        if eq_ignore_ascii_case(name, names[i]) {
            return Some(names[i].to_owned());
        }
        i = i + 1;
    }
    None
}

/// The name under which a struct is known, after overrides.
pub open spec fn struct_name_of(
    mapping: NameMapping,
    path: Seq<Seq<char>>,
    name: Seq<char>,
) -> Seq<char> {
    match primitive_match(name) {
        Some(p) => p,
        None => {
            let fixed = fixed_struct_name(name, mapping.use_scope);
            let key = path_string(path, converted_name(fixed));
            match lookup(mapping.struct_mapping@, key) {
                Some(m) => m,
                None => replaced(replaced(fixed, "."@, "::"@), "::_common::"@, "::"@),
            }
        }
    }
}

impl NameMapping {
    pub fn new() -> (r: Self)
        ensures
            r.struct_mapping@.len() == 0,
            r.property_mapping@.len() == 0,
            r.property_type_mapping@.len() == 0,
            r.module_mapping@.len() == 0,
            r.status_code_mapping@.len() == 0,
            !r.i32_to_u32,
            !r.use_scope,
    {
        NameMapping {
            struct_mapping: Vec::new(),
            property_mapping: Vec::new(),
            property_type_mapping: Vec::new(),
            module_mapping: Vec::new(),
            status_code_mapping: Vec::new(),
            i32_to_u32: false,
            use_scope: false,
        }
    }

    pub fn set_scope(&mut self, use_scope: bool)
        ensures
            *final(self) == (NameMapping { use_scope, ..*old(self) }),
    {
        self.use_scope = use_scope;
    }

    pub fn name_to_struct_name(&self, path: &Vec<String>, name: &str) -> (r: String)
        ensures
            r@ == struct_name_of(*self, views(path@), name@),
    {
        proof {
            reveal_strlit(".");
            reveal_strlit("::_common::");
        }
        if let Some(p) = primitive_type_of(name) {
            return p;
        }
        let fixed = fix_struct_names(name, self.use_scope);
        let converted = convert_name(fixed.as_str());
        let key = path_to_string(path, converted.as_str());
        match table_get(&self.struct_mapping, key.as_str()) {
            Some(m) => m,
            None => {
                let dotted = replace(fixed.as_str(), ".", "::");
                replace(dotted.as_str(), "::_common::", "::")
            },
        }
    }
}


/// The last piece, or nothing where there are no pieces.
pub open spec fn last_or_empty(parts: Seq<Seq<char>>) -> Seq<char> {
    if parts.len() == 0 {
        Seq::empty()
    } else {
        parts.last()
    }
}

/// Everything before the last `::` separated piece.
pub open spec fn package_of(full_name: Seq<char>) -> Seq<char> {
    joined(split_on(full_name, "::"@).drop_last(), "::"@)
}

pub open spec fn property_name_of(mapping: NameMapping, path: Seq<Seq<char>>, name: Seq<char>) -> Seq<char> {
    let converted = snake_of(name);
    match lookup(mapping.property_mapping@, path_string(path, converted)) {
        Some(m) => m,
        None => converted,
    }
}

pub open spec fn widened_type(mapping: NameMapping, original_type: Seq<char>) -> Seq<char> {
    if mapping.i32_to_u32 && eq_ignore_case(original_type, "i32"@) {
        "u32"@
    } else {
        original_type
    }
}

pub open spec fn property_type_of(mapping: NameMapping, name: Seq<char>, original_type: Seq<char>) -> Seq<char> {
    let table = mapping.property_type_mapping@;
    match key_index(table, snake_of(name)) {
        Some(i) => match lookup(table[i as int].1@, original_type) {
            Some(t) => t,
            None => widened_type(mapping, original_type),
        },
        None => widened_type(mapping, original_type),
    }
}

pub open spec fn module_name_of(mapping: NameMapping, name: Seq<char>) -> Seq<char> {
    let converted = snake_of(strip_index_suffix(name, "."@));
    match lookup(mapping.module_mapping@, converted) {
        Some(m) => m,
        None => if mapping.use_scope && !occurs_in(converted, "."@) && !occurs_in(converted, "::"@) {
            "common."@ + converted
        } else {
            converted
        },
    }
}

pub open spec fn digit_char(d: int) -> char {
    ((d + 48) as u8) as char
}

/// The three decimal digits of a status code.
pub open spec fn status_digits(code: u16) -> Seq<char> {
    seq![digit_char(code as int / 100), digit_char((code as int / 10) % 10), digit_char(code as int % 10)]
}

/// Index of the first uppercase character (the length where there is none).
pub open spec fn first_upper(s: Seq<char>) -> nat
    decreases s.len(),
{
    if s.len() == 0 {
        0
    } else if upper_char(s[0]) {
        0
    } else {
        1 + first_upper(s.subrange(1, s.len() as int))
    }
}

proof fn lemma_first_upper(s: Seq<char>, i: int)
    requires
        0 <= i <= s.len(),
        forall|j: int| 0 <= j < i ==> !upper_char(#[trigger] s[j]),
        i == s.len() || upper_char(s[i]),
    ensures
        first_upper(s) == i,
    decreases i,
{
    if i > 0 {
        let t = s.subrange(1, s.len() as int);
        assert forall|j: int| 0 <= j < i - 1 implies !upper_char(#[trigger] t[j]) by {
            assert(t[j] == s[j + 1]);
        }
        if i < s.len() {
            assert(t[i - 1] == s[i]);
        }
        lemma_first_upper(t, i - 1);
        assert(!upper_char(s[0]));
    }
}

/// The text before the first uppercase character, and the rest.
pub open spec fn upper_split(s: Seq<char>) -> (Seq<char>, Seq<char>) {
    (s.subrange(0, first_upper(s) as int), s.subrange(first_upper(s) as int, s.len() as int))
}

pub open spec fn validated_name_path(name: Seq<char>, path: Seq<char>) -> (Seq<char>, Seq<char>) {
    if !occurs_in(name, "."@) {
        (name, path)
    } else {
        let last = split_on(name, "."@).last();
        if last.len() > 0 && upper_char(last[0]) {
            (last, path)
        } else {
            let (prefix, rest) = upper_split(last);
            (rest, replaced(path, prefix + "_"@, prefix + "."@))
        }
    }
}

pub fn split_on_first_upper(name: &str) -> (r: (String, String))
    ensures
        (r.0@, r.1@) == upper_split(name@),
{
    let n = name.unicode_len();
    let mut i: usize = 0;
    while i < n && !is_upper(name.get_char(i))
        invariant
            n == name@.len(),
            i <= n,
            forall|j: int| 0 <= j < i ==> !upper_char(#[trigger] name@[j]),
        decreases n - i,
    {
        i = i + 1;
    }
    proof {
        lemma_first_upper(name@, i as int);
    }
    (name.substring_char(0, i).to_owned(), name.substring_char(i, n).to_owned())
}

/// Relies on http's `StatusCode::from_bytes`, re-exported by reqwest: three ASCII digits,
/// the first not zero, read as a decimal number.
#[verifier::external_body]
fn parse_status_code(key: &str) -> (r: Option<u16>)
    ensures
        r == status_code_of(key@),
{
    reqwest::StatusCode::from_bytes(key.as_bytes()).ok().map(|c| c.as_u16())
}

/// The reason phrase that the HTTP registry gives a status code, if it gives one.
pub uninterp spec fn status_reason(code: u16) -> Option<Seq<char>>;

/// Relies on http's `StatusCode::canonical_reason`, re-exported by reqwest: the registered
/// reason phrase of the code; the code is in the range that `StatusCode` accepts.
#[verifier::external_body]
fn canonical_reason(code: u16) -> (r: Option<String>)
    requires
        100 <= code <= 999,
    ensures
        match r {
            Some(p) => status_reason(code) == Some(p@),
            None => status_reason(code) is None,
        },
{
    reqwest::StatusCode::from_u16(code).ok().and_then(|c| c.canonical_reason()).map(|p| p.to_owned())
}

pub open spec fn is_digit(c: char) -> bool {
    '0' <= c && c <= '9'
}

/// The status code that a response key spells, where it spells one.
pub open spec fn status_code_of(key: Seq<char>) -> Option<u16> {
    if key.len() == 3 && '1' <= key[0] && key[0] <= '9' && is_digit(key[1]) && is_digit(key[2]) {
        Some(((key[0] as int - 48) * 100 + (key[1] as int - 48) * 10 + (key[2] as int - 48)) as u16)
    } else {
        None
    }
}

/// Reads a response key as a status code.
pub fn status_code_from_key(key: &str) -> (r: Option<u16>)
    ensures
        r == status_code_of(key@),
        r matches Some(c) ==> 100 <= c <= 999,
{
    parse_status_code(key)
}

fn digit_text(d: u16) -> (r: &'static str)
    requires
        d < 10,
    ensures
        r@ == seq![digit_char(d as int)],
{
    let digits = "0123456789";
    proof {
        reveal_strlit("0123456789");
    }
    digits.substring_char(d as usize, (d + 1) as usize)
}

fn status_code_text(code: u16) -> (r: String)
    requires
        code <= 999,
    ensures
        r@ == status_digits(code),
{
    let a = digit_text(code / 100);
    let b = digit_text((code / 10) % 10);
    let c = digit_text(code % 10);
    let mut out = a.to_owned();
    out.append(b);
    out.append(c);
    assert(out@ =~= status_digits(code));
    out
}

/// The name of a module for a component name: index suffix removed, snake_case, overrides
/// applied and, with scopes, a default scope.
pub fn validate_component_name(component_name: &str, use_scope: bool) -> (r: String)
    ensures
        r@ == validated_component_name(component_name@, use_scope),
{
    proof {
        reveal_strlit("___");
        reveal_strlit(".");
        reveal_strlit("_");
    }
    let dotted = replace(component_name, "___", ".");
    let result = replace(dotted.as_str(), ".", "::");
    if starts_with(result.as_str(), "_") {
        return trim_start_matches(result.as_str(), "_");
    }
    if !contains(result.as_str(), "::") {
        let mut out = if use_scope {
            "common::".to_owned()
        } else {
            "models::".to_owned()
        };
        out.append(result.as_str());
        return out;
    }
    result
}

/// A component name with `___` and `.` turned into `::`, leading underscores removed, or
/// else a default namespace added where it has none.
pub open spec fn validated_component_name(name: Seq<char>, use_scope: bool) -> Seq<char> {
    let result = replaced(replaced(name, "___"@, "."@), "."@, "::"@);
    if is_prefix("_"@, result) {
        trimmed_start(result, "_"@)
    } else if !occurs_in(result, "::"@) {
        scope_prefix(use_scope) + result
    } else {
        result
    }
}

impl NameMapping {
    pub fn extract_struct_name(&self, full_name: &str) -> (r: String)
        ensures
            r@ == pascal_of(last_or_empty(special_parts(full_name@))),
    {
        let parts = split_on_special_chars(full_name);
        if parts.len() == 0 {
            let empty = String::new();
            return to_pascal(empty.as_str());
        }
        to_pascal(parts[parts.len() - 1].as_str())
    }

    pub fn extract_function_name(&self, full_name: &str) -> (r: String)
        ensures
            r@ == snake_of(last_or_empty(special_parts(full_name@))),
    {
        let parts = split_on_special_chars(full_name);
        if parts.len() == 0 {
            let empty = String::new();
            return to_snake(empty.as_str());
        }
        to_snake(parts[parts.len() - 1].as_str())
    }

    pub fn extract_package_name(&self, full_name: &str) -> (r: String)
        ensures
            r@ == package_of(full_name@),
    {
        proof {
            reveal_strlit("::");
        }
        let parts = split(full_name, "::");
        assert(views(parts@).len() >= 1) by {
            lemma_split_nonempty(full_name@, "::"@, Seq::empty());
        }
        let r = join_first(&parts, parts.len() - 1, "::");
        assert(views(parts@).take(parts@.len() - 1) =~= views(parts@).drop_last());
        r
    }

    pub fn name_to_property_name(&self, path: &Vec<String>, name: &str) -> (r: String)
        ensures
            r@ == property_name_of(*self, views(path@), name@),
    {
        let converted = to_snake(name);
        let key = path_to_string(path, converted.as_str());
        match table_get(&self.property_mapping, key.as_str()) {
            Some(m) => m,
            None => converted,
        }
    }

    fn widen_type(&self, original_type: &str) -> (r: String)
        ensures
            r@ == widened_type(*self, original_type@),
    {
        if self.i32_to_u32 && eq_ignore_ascii_case(original_type, "i32") {
            "u32".to_owned()
        } else {
            original_type.to_owned()
        }
    }

    pub fn type_to_property_type(&self, name: &str, original_type: &str) -> (r: String)
        ensures
            r@ == property_type_of(*self, name@, original_type@),
    {
        let converted = to_snake(name);
        match key_position(&self.property_type_mapping, converted.as_str()) {
            Some(i) => match table_get(&self.property_type_mapping[i].1, original_type) {
                Some(t) => t,
                None => self.widen_type(original_type),
            },
            None => self.widen_type(original_type),
        }
    }

    pub fn name_to_module_name(&self, name: &str) -> (r: String)
        ensures
            r@ == module_name_of(*self, name@),
    {
        let stripped = strip_index(name, ".");
        let converted = to_snake(stripped.as_str());
        match table_get(&self.module_mapping, converted.as_str()) {
            Some(m) => m,
            None => {
                if self.use_scope && !contains(converted.as_str(), ".") && !contains(
                    converted.as_str(),
                    "::",
                ) {
                    let mut out = "common.".to_owned();
                    out.append(converted.as_str());
                    out
                } else {
                    converted
                }
            },
        }
    }

    /// The name of a status code: an override of the table where there is one, else the
    /// registered reason phrase.
    pub fn status_code_to_canonical_name(&self, status_code: u16) -> (r: Result<
        String,
        GeneratorError,
    >)
        requires
            100 <= status_code <= 999,
        ensures
            match lookup(self.status_code_mapping@, status_digits(status_code)) {
                Some(m) => r matches Ok(n) && n@ == m,
                None => match status_reason(status_code) {
                    Some(p) => r matches Ok(n) && n@ == p,
                    None => r matches Err(GeneratorError::StatusCodeError(_, _)),
                },
            },
    {
        let key = status_code_text(status_code);
        if let Some(m) = table_get(&self.status_code_mapping, key.as_str()) {
            return Ok(m);
        }
        match canonical_reason(status_code) {
            Some(p) => Ok(p),
            None => Err(
                GeneratorError::StatusCodeError(key, "Failed to get canonical status code".to_owned()),
            ),
        }
    }

    pub fn validate_object_name_path(&self, name: &str, path: &str) -> (r: (String, String))
        ensures
            (r.0@, r.1@) == validated_name_path(name@, path@),
    {
        proof {
            reveal_strlit(".");
            reveal_strlit("_");
        }
        if !contains(name, ".") {
            return (name.to_owned(), path.to_owned());
        }
        let name_parts = split(name, ".");
        proof {
            lemma_split_nonempty(name@, "."@, Seq::empty());
        }
        let last_part = &name_parts[name_parts.len() - 1];
        assert(last_part@ == split_on(name@, "."@).last());
        if last_part.unicode_len() > 0 && is_upper(last_part.as_str().get_char(0)) {
            return (last_part.clone(), path.to_owned());
        }
        let (prefix, rest) = split_on_first_upper(last_part.as_str());
        let mut from = prefix.clone();
        from.append("_");
        let mut to = prefix;
        to.append(".");
        (rest, replace(path, from.as_str(), to.as_str()))
    }
}

} // verus!
