//! What the manual page of the PAM module says, and what the module's source
//! says, read out of their texts so that the one can be held against the other.

use crate::text::{
    cut_at, ends_with, holds, lines_of, pieces_of, same, starts_with, strip_prefix, trimmed,
    words_of, chars_of, piece, string_of,
};
use vstd::prelude::*;
use vstd::string::*;

verus! {

// ---------------------------------------------------------------------------
// The page
// ---------------------------------------------------------------------------

/// The body of a section of the page: what stands between its heading and the
/// next.
pub open spec fn section_of(page: Seq<char>, heading: Seq<char>) -> Option<Seq<char>> {
    match crate::text::cut(page, heading) {
        Some((_, body)) => Some(
            match crate::text::cut(body, "\n.SH "@) {
                Some((section, _)) => section,
                None => body,
            },
        ),
        None => None,
    }
}

/// The body of a section of the page; none where the page has no such heading.
pub fn man_section(page: &str, heading: &str) -> (r: Option<String>)
    ensures
        crate::text::opt_text(r) == section_of(page@, heading@),
{
    match cut_at(page, heading) {
        Some((_, body)) => match cut_at(body.as_str(), "\n.SH ") {
            Some((section, _)) => Some(section),
            None => Some(body),
        },
        None => None,
    }
}

/// The argument of the first of the macros that a line is a call of.
pub open spec fn argument_in(line: Seq<char>, macros: Seq<Seq<char>>) -> Option<Seq<char>>
    decreases macros.len(),
{
    if macros.len() == 0 {
        None
    } else if crate::text::has_prefix(line, macros[0] + " "@) {
        Some(crate::text::trim(line.skip((macros[0] + " "@).len() as int)))
    } else {
        argument_in(line, macros.skip(1))
    }
}

/// The arguments of the macro calls among the lines, in order.
pub open spec fn arguments_in(lines: Seq<Seq<char>>, macros: Seq<Seq<char>>) -> Seq<Seq<char>>
    decreases lines.len(),
{
    if lines.len() == 0 {
        Seq::empty()
    } else {
        let before = arguments_in(lines.drop_last(), macros);
        match argument_in(lines.last(), macros) {
            Some(argument) => before.push(argument),
            None => before,
        }
    }
}

fn argument_of(line: &str, macros: &Vec<String>) -> (r: Option<String>)
    ensures
        crate::text::opt_text(r) == argument_in(line@, crate::text::texts(macros@)),
{
    let ghost all = crate::text::texts(macros@);
    let mut i: usize = 0;
    assert(all.skip(0) =~= all);
    while i < macros.len()
        invariant
            i <= macros.len(),
            all == crate::text::texts(macros@),
            argument_in(line@, all) == argument_in(line@, all.skip(i as int)),
        decreases macros.len() - i,
    {
        assert(all.skip(i as int)[0] == macros[i as int]@);
        assert(all.skip(i as int).skip(1) =~= all.skip(i as int + 1));
        let mut call = macros[i].clone();
        call.append(" ");
        if let Some(rest) = strip_prefix(line, call.as_str()) {
            return Some(trimmed(rest.as_str()));
        }
        i += 1;
    }
    None
}

/// The arguments of the macro calls in a section, in order, without the macro.
pub fn macro_arguments(section: &str, macros: &Vec<String>) -> (r: Vec<String>)
    ensures
        crate::text::texts(r@) == arguments_in(
            crate::text::lines(section@),
            crate::text::texts(macros@),
        ),
{
    let lines = lines_of(section);
    let ghost all = crate::text::lines(section@);
    let ghost names = crate::text::texts(macros@);
    let mut out: Vec<String> = Vec::new();
    let mut i: usize = 0;
    assert(crate::text::texts(out@) =~= arguments_in(all.take(0), names));
    while i < lines.len()
        invariant
            i <= lines.len(),
            all == crate::text::texts(lines@),
            names == crate::text::texts(macros@),
            crate::text::texts(out@) == arguments_in(all.take(i as int), names),
        decreases lines.len() - i,
    {
        let ghost before = crate::text::texts(out@);
        assert(all.take(i as int + 1).drop_last() =~= all.take(i as int));
        assert(all[i as int] == lines[i as int]@);
        if let Some(argument) = argument_of(lines[i].as_str(), macros) {
            out.push(argument);
            assert(crate::text::texts(out@) =~= before.push(argument@));
        }
        i += 1;
    }
    assert(all.take(lines.len() as int) =~= all);
    out
}

// ---------------------------------------------------------------------------
// Return values
// ---------------------------------------------------------------------------

/// The result code that a line of the source declares.
pub open spec fn declared_in(line: Seq<char>) -> Option<Seq<char>> {
    if crate::text::has_prefix(line, "const PAM_"@) {
        let rest = line.skip("const PAM_"@.len() as int);
        if crate::text::contains(rest, "libc::c_int"@) {
            Some("PAM_"@ + crate::text::split(rest, ":"@)[0])
        } else {
            None
        }
    } else {
        None
    }
}

/// The codes that the lines declare, in order.
pub open spec fn declared(lines: Seq<Seq<char>>) -> Seq<Seq<char>>
    decreases lines.len(),
{
    if lines.len() == 0 {
        Seq::empty()
    } else {
        let before = declared(lines.drop_last());
        match declared_in(lines.last()) {
            Some(code) => before.push(code),
            None => before,
        }
    }
}

/// Whether the source returns a code: in a `return`, or as a line of its own.
pub open spec fn is_returned(source: Seq<char>, code: Seq<char>) -> bool {
    ||| crate::text::contains(source, "return "@ + code + ";"@)
    ||| exists|i: int|
        0 <= i < crate::text::lines(source).len() && crate::text::trim(
            #[trigger] crate::text::lines(source)[i],
        ) == code
}

/// The codes that the source declares and returns, in the order of their
/// declaration.
pub open spec fn return_codes(source: Seq<char>) -> Seq<Seq<char>> {
    declared(crate::text::lines(source)).filter(|code: Seq<char>| is_returned(source, code))
}

fn declared_code(line: &str) -> (r: Option<String>)
    ensures
        crate::text::opt_text(r) == declared_in(line@),
{
    match strip_prefix(line, "const PAM_") {
        Some(rest) => {
            if !holds(rest.as_str(), "libc::c_int") {
                return None;
            }
            proof {
                reveal_strlit(":");
            }
            let parts = pieces_of(rest.as_str(), ":");
            proof {
                lemma_split_has_a_piece(rest@, ":"@);
            }
            assert(crate::text::texts(parts@)[0] == parts[0]@);
            let mut code = String::from_str("PAM_");
            code.append(parts[0].as_str());
            Some(code)
        },
        None => None,
    }
}

proof fn lemma_split_has_a_piece(s: Seq<char>, separator: Seq<char>)
    ensures
        crate::text::split(s, separator).len() > 0,
{
}

/// The codes that the source declares, in order.
pub fn declared_codes(source: &str) -> (r: Vec<String>)
    ensures
        crate::text::texts(r@) == declared(crate::text::lines(source@)),
{
    let lines = lines_of(source);
    let ghost all = crate::text::lines(source@);
    let mut out: Vec<String> = Vec::new();
    let mut i: usize = 0;
    assert(crate::text::texts(out@) =~= declared(all.take(0)));
    while i < lines.len()
        invariant
            i <= lines.len(),
            all == crate::text::texts(lines@),
            crate::text::texts(out@) == declared(all.take(i as int)),
        decreases lines.len() - i,
    {
        let ghost before = crate::text::texts(out@);
        assert(all.take(i as int + 1).drop_last() =~= all.take(i as int));
        assert(all[i as int] == lines[i as int]@);
        if let Some(code) = declared_code(lines[i].as_str()) {
            out.push(code);
            assert(crate::text::texts(out@) =~= before.push(code@));
        }
        i += 1;
    }
    assert(all.take(lines.len() as int) =~= all);
    out
}

/// Whether the source returns a code.
pub fn returns_code(source: &str, code: &str) -> (r: bool)
    ensures
        r == is_returned(source@, code@),
{
    let mut statement = String::from_str("return ");
    statement.append(code);
    statement.append(";");
    if holds(source, statement.as_str()) {
        return true;
    }
    let lines = lines_of(source);
    let ghost all = crate::text::lines(source@);
    let mut i: usize = 0;
    while i < lines.len()
        invariant
            i <= lines.len(),
            all == crate::text::texts(lines@),
            all == crate::text::lines(source@),
            forall|j: int| 0 <= j < i ==> crate::text::trim(#[trigger] all[j]) != code@,
        decreases lines.len() - i,
    {
        assert(all[i as int] == lines[i as int]@);
        if same(trimmed(lines[i].as_str()).as_str(), code) {
            assert(crate::text::trim(all[i as int]) == code@);
            return true;
        }
        i += 1;
    }
    false
}

/// The codes that the module can hand back: those that its source declares and
/// returns.
pub fn pam_return_codes(source: &str) -> (r: Vec<String>)
    ensures
        crate::text::texts(r@) == return_codes(source@),
{
    let codes = declared_codes(source);
    let ghost all = declared(crate::text::lines(source@));
    let ghost keep = |code: Seq<char>| is_returned(source@, code);
    let mut out: Vec<String> = Vec::new();
    let mut i: usize = 0;
    proof {
        reveal(Seq::filter);
    }
    assert(crate::text::texts(out@) =~= all.take(0).filter(keep));
    while i < codes.len()
        invariant
            i <= codes.len(),
            all == crate::text::texts(codes@),
            keep == (|code: Seq<char>| is_returned(source@, code)),
            crate::text::texts(out@) == all.take(i as int).filter(keep),
        decreases codes.len() - i,
    {
        let ghost before = crate::text::texts(out@);
        proof {
            reveal(Seq::filter);
        }
        assert(all.take(i as int + 1).drop_last() =~= all.take(i as int));
        assert(all[i as int] == codes[i as int]@);
        if returns_code(source, codes[i].as_str()) {
            out.push(codes[i].clone());
            assert(crate::text::texts(out@) =~= before.push(codes[i as int]@));
        }
        i += 1;
    }
    assert(all.take(codes.len() as int) =~= all);
    out
}

// ---------------------------------------------------------------------------
// Constants and grants
// ---------------------------------------------------------------------------

/// The value of a text constant of the source.
pub open spec fn constant_value(source: Seq<char>, name: Seq<char>) -> Option<Seq<char>> {
    match crate::text::cut(source, "const "@ + name + ": &str = \""@) {
        Some((_, rest)) => match crate::text::cut(rest, "\""@) {
            Some((value, _)) => Some(value),
            None => None,
        },
        None => None,
    }
}

/// The value of a text constant of the source; none where it is not declared or
/// its quotes are not closed.
pub fn pam_source_constant(source: &str, name: &str) -> (r: Option<String>)
    ensures
        crate::text::opt_text(r) == constant_value(source@, name@),
{
    let mut needle = String::from_str("const ");
    needle.append(name);
    needle.append(": &str = \"");
    match cut_at(source, needle.as_str()) {
        Some((_, rest)) => match cut_at(rest.as_str(), "\"") {
            Some((value, _)) => Some(value),
            None => None,
        },
        None => None,
    }
}

/// The method that a line of the bus policy lets anyone send.
pub open spec fn granted_in(line: Seq<char>) -> Option<Seq<char>> {
    let t = crate::text::trim(line);
    if crate::text::has_prefix(t, "send_member=\""@) {
        match crate::text::cut(t.skip("send_member=\""@.len() as int), "\""@) {
            Some((name, _)) => Some(name),
            None => None,
        }
    } else {
        None
    }
}

/// The methods that the lines of the bus policy let anyone send, in order.
pub open spec fn granted(lines: Seq<Seq<char>>) -> Seq<Seq<char>>
    decreases lines.len(),
{
    if lines.len() == 0 {
        Seq::empty()
    } else {
        let before = granted(lines.drop_last());
        match granted_in(lines.last()) {
            Some(name) => before.push(name),
            None => before,
        }
    }
}

fn granted_method(line: &str) -> (r: Option<String>)
    ensures
        crate::text::opt_text(r) == granted_in(line@),
{
    let t = trimmed(line);
    match strip_prefix(t.as_str(), "send_member=\"") {
        Some(rest) => match cut_at(rest.as_str(), "\"") {
            Some((name, _)) => Some(name),
            None => None,
        },
        None => None,
    }
}

/// The methods that the bus policy lets anyone send, in order.
pub fn user_grantable_methods(policy: &str) -> (r: Vec<String>)
    ensures
        crate::text::texts(r@) == granted(crate::text::lines(policy@)),
{
    let lines = lines_of(policy);
    let ghost all = crate::text::lines(policy@);
    let mut out: Vec<String> = Vec::new();
    let mut i: usize = 0;
    assert(crate::text::texts(out@) =~= granted(all.take(0)));
    while i < lines.len()
        invariant
            i <= lines.len(),
            all == crate::text::texts(lines@),
            crate::text::texts(out@) == granted(all.take(i as int)),
        decreases lines.len() - i,
    {
        let ghost before = crate::text::texts(out@);
        assert(all.take(i as int + 1).drop_last() =~= all.take(i as int));
        assert(all[i as int] == lines[i as int]@);
        if let Some(name) = granted_method(lines[i].as_str()) {
            out.push(name);
            assert(crate::text::texts(out@) =~= before.push(name@));
        }
        i += 1;
    }
    assert(all.take(lines.len() as int) =~= all);
    out
}

// ---------------------------------------------------------------------------
// Configuration
// ---------------------------------------------------------------------------

/// A field of a struct of the source.
#[derive(Debug, Clone, PartialEq, Eq)]
pub struct Field<S = String> {
    pub name: S,
    pub kind: S,
}

/// A key of the configuration file, under its table.
#[derive(Debug, Clone, PartialEq, Eq)]
pub struct ConfigKey<S = String> {
    pub table: S,
    pub key: S,
}

impl View for Field<String> {
    type V = Field<Seq<char>>;

    open spec fn view(&self) -> Field<Seq<char>> {
        Field { name: self.name@, kind: self.kind@ }
    }
}

impl View for ConfigKey<String> {
    type V = ConfigKey<Seq<char>>;

    open spec fn view(&self) -> ConfigKey<Seq<char>> {
        ConfigKey { table: self.table@, key: self.key@ }
    }
}

/// The fields with sequences in place of strings.
pub open spec fn fields_view(fields: Seq<Field>) -> Seq<Field<Seq<char>>> {
    fields.map_values(|f: Field| f@)
}

/// The keys with sequences in place of strings.
pub open spec fn keys_view(keys: Seq<ConfigKey>) -> Seq<ConfigKey<Seq<char>>> {
    keys.map_values(|k: ConfigKey| k@)
}

/// Whether a character can stand in a key.
pub open spec fn is_key_char(c: char) -> bool {
    ('a' <= c && c <= 'z') || ('0' <= c && c <= '9') || c == '_'
}

/// Whether every character of a text can stand in a key.
pub open spec fn is_key_text(s: Seq<char>) -> bool {
    forall|i: int| 0 <= i < s.len() ==> is_key_char(#[trigger] s[i])
}

/// A text without the repeated mark at its end.
pub open spec fn without_end(s: Seq<char>, mark: char) -> Seq<char>
    decreases s.len(),
{
    if s.len() > 0 && s.last() == mark {
        without_end(s.drop_last(), mark)
    } else {
        s
    }
}

/// A text without the repeated `Option<` at its start.
pub open spec fn without_option(s: Seq<char>) -> Seq<char>
    decreases s.len(),
{
    if "Option<"@.len() > 0 && crate::text::has_prefix(s, "Option<"@) {
        without_option(s.skip("Option<"@.len() as int))
    } else {
        s
    }
}

/// The field that a line of a struct declares: four spaces of indentation, a
/// name, a colon and a type.
pub open spec fn field_in(line: Seq<char>) -> Option<Field<Seq<char>>> {
    if crate::text::has_prefix(line, "    "@) {
        let field = line.skip("    "@.len() as int);
        if field.len() > 0 && (field[0] == ' ' || field[0] == '#' || field[0] == '/' || field[0]
            == '}') {
            None
        } else {
            match crate::text::cut(field, ": "@) {
                Some((name, rest)) => if is_key_text(name) {
                    Some(
                        Field { name, kind: without_end(crate::text::trim(rest), ',') },
                    )
                } else {
                    None
                },
                None => None,
            }
        }
    } else {
        None
    }
}

/// The fields that the lines declare, in order.
pub open spec fn fields_in(lines: Seq<Seq<char>>) -> Seq<Field<Seq<char>>>
    decreases lines.len(),
{
    if lines.len() == 0 {
        Seq::empty()
    } else {
        let before = fields_in(lines.drop_last());
        match field_in(lines.last()) {
            Some(field) => before.push(field),
            None => before,
        }
    }
}

/// The fields of a struct of the source; none where it is not declared. The
/// struct ends at the first closing brace in the first column.
pub open spec fn fields_of(source: Seq<char>, name: Seq<char>) -> Option<Seq<Field<Seq<char>>>> {
    match crate::text::cut(source, "\nstruct "@ + name + " {\n"@) {
        Some((_, body)) => Some(
            fields_in(
                crate::text::lines(
                    match crate::text::cut(body, "\n}"@) {
                        Some((inside, _)) => inside,
                        None => body,
                    },
                ),
            ),
        ),
        None => None,
    }
}

fn key_text(s: &str) -> (r: bool)
    ensures
        r == is_key_text(s@),
{
    let v = chars_of(s);
    let mut i: usize = 0;
    while i < v.len()
        invariant
            i <= v.len(),
            v@ == s@,
            forall|j: int| 0 <= j < i ==> is_key_char(#[trigger] s@[j]),
        decreases v.len() - i,
    {
        let c = v[i];
        if !(('a' <= c && c <= 'z') || ('0' <= c && c <= '9') || c == '_') {
            assert(!is_key_char(s@[i as int]));
            return false;
        }
        i += 1;
    }
    true
}

fn end_removed(s: &str, mark: char) -> (r: String)
    ensures
        r@ == without_end(s@, mark),
{
    let v = chars_of(s);
    let mut end: usize = v.len();
    assert(v@.take(end as int) =~= v@);
    while end > 0 && v[end - 1] == mark
        invariant
            end <= v.len(),
            v@ == s@,
            without_end(s@, mark) == without_end(v@.take(end as int), mark),
        decreases end,
    {
        assert(v@.take(end as int).last() == v@[end - 1]);
        assert(v@.take(end as int).drop_last() =~= v@.take(end - 1));
        end -= 1;
    }
    if end > 0 {
        assert(v@.take(end as int).last() == v@[end - 1]);
    }
    let kept = piece(&v, 0, end);
    assert(kept@ =~= v@.take(end as int));
    string_of(&kept)
}

fn option_removed(s: String) -> (r: String)
    ensures
        r@ == without_option(s@),
    decreases s@.len(),
{
    proof {
        reveal_strlit("Option<");
    }
    match strip_prefix(s.as_str(), "Option<") {
        Some(rest) => option_removed(rest),
        None => s,
    }
}

fn field_of_line(line: &str) -> (r: Option<Field>)
    ensures
        match r {
            Some(f) => field_in(line@) == Some(f@),
            None => field_in(line@) is None,
        },
{
    match strip_prefix(line, "    ") {
        Some(field) => {
            let v = chars_of(field.as_str());
            if v.len() > 0 && (v[0] == ' ' || v[0] == '#' || v[0] == '/' || v[0] == '}') {
                return None;
            }
            match cut_at(field.as_str(), ": ") {
                Some((name, rest)) => {
                    if key_text(name.as_str()) {
                        let kind = end_removed(trimmed(rest.as_str()).as_str(), ',');
                        Some(Field { name, kind })
                    } else {
                        None
                    }
                },
                None => None,
            }
        },
        None => None,
    }
}

/// The fields of a struct of the source; none where it is not declared.
pub fn struct_fields(source: &str, struct_name: &str) -> (r: Option<Vec<Field>>)
    ensures
        match r {
            Some(fields) => fields_of(source@, struct_name@) == Some(fields_view(fields@)),
            None => fields_of(source@, struct_name@) is None,
        },
{
    let mut opening = String::from_str("\nstruct ");
    opening.append(struct_name);
    opening.append(" {\n");
    let body = match cut_at(source, opening.as_str()) {
        Some((_, body)) => body,
        None => {
            return None;
        },
    };
    let inside = match cut_at(body.as_str(), "\n}") {
        Some((inside, _)) => inside,
        None => body,
    };
    let lines = lines_of(inside.as_str());
    let ghost all = crate::text::lines(inside@);
    let mut out: Vec<Field> = Vec::new();
    let mut i: usize = 0;
    assert(fields_view(out@) =~= fields_in(all.take(0)));
    while i < lines.len()
        invariant
            i <= lines.len(),
            all == crate::text::texts(lines@),
            fields_view(out@) == fields_in(all.take(i as int)),
        decreases lines.len() - i,
    {
        let ghost before = fields_view(out@);
        assert(all.take(i as int + 1).drop_last() =~= all.take(i as int));
        assert(all[i as int] == lines[i as int]@);
        if let Some(field) = field_of_line(lines[i].as_str()) {
            out.push(field);
            assert(fields_view(out@) =~= before.push(field@));
        }
        i += 1;
    }
    assert(all.take(lines.len() as int) =~= all);
    Some(out)
}

/// The struct that a field's type names, optional or not.
pub open spec fn inner_type(kind: Seq<char>) -> Seq<char> {
    without_end(without_option(kind), '>')
}

/// Whether a type is one of the module's configuration structs: a table.
pub open spec fn is_table_type(inner: Seq<char>) -> bool {
    crate::text::has_prefix(inner, "Pam"@) && crate::text::has_suffix(inner, "Config"@)
}

/// The name of the table that a field opens.
pub open spec fn child_table(table: Seq<char>, field: Seq<char>) -> Seq<char> {
    if table.len() == 0 {
        field
    } else {
        table + "."@ + field
    }
}

/// The key that a field is, where it stands in a table.
pub open spec fn own_key(table: Seq<char>, field: Seq<char>) -> Seq<ConfigKey<Seq<char>>> {
    if table.len() == 0 {
        Seq::empty()
    } else {
        seq![ConfigKey { table, key: field }]
    }
}

/// The keys below the fields from `i` on, in the order in which they are met:
/// a field whose type is another configuration struct is a key and a table, any
/// other is a key. None where a struct is missing or lies more than `depth`
/// levels down.
pub open spec fn keys_below(
    source: Seq<char>,
    fields: Seq<Field<Seq<char>>>,
    table: Seq<char>,
    depth: nat,
) -> Option<Seq<ConfigKey<Seq<char>>>>
    decreases depth, fields.len(),
{
    if fields.len() == 0 {
        Some(Seq::empty())
    } else {
        let field = fields.last();
        match keys_below(source, fields.drop_last(), table, depth) {
            Some(before) => {
                let mine = before + own_key(table, field.name);
                let inner = inner_type(field.kind);
                if !is_table_type(inner) {
                    Some(mine)
                } else if depth == 0 {
                    None
                } else {
                    match fields_of(source, inner) {
                        Some(below) => match keys_below(
                            source,
                            below,
                            child_table(table, field.name),
                            (depth - 1) as nat,
                        ) {
                            Some(keys) => Some(mine + keys),
                            None => None,
                        },
                        None => None,
                    }
                }
            },
            None => None,
        }
    }
}

/// The keys of a configuration struct.
pub open spec fn struct_keys(
    source: Seq<char>,
    struct_name: Seq<char>,
    table: Seq<char>,
    depth: nat,
) -> Option<Seq<ConfigKey<Seq<char>>>> {
    match fields_of(source, struct_name) {
        Some(fields) => keys_below(source, fields, table, depth),
        None => None,
    }
}

fn table_type(inner: &str) -> (r: bool)
    ensures
        r == is_table_type(inner@),
{
    starts_with(inner, "Pam") && ends_with(inner, "Config")
}

/// The keys of a configuration struct, in the order in which they are met. None
/// where a struct is missing or lies more than `depth` levels down.
pub fn walk_config_struct(source: &str, struct_name: &str, table: &str, depth: usize) -> (r: Option<
    Vec<ConfigKey>,
>)
    ensures
        match r {
            Some(keys) => struct_keys(source@, struct_name@, table@, depth as nat) == Some(
                keys_view(keys@),
            ),
            None => struct_keys(source@, struct_name@, table@, depth as nat) is None,
        },
    decreases depth,
{
    let fields = match struct_fields(source, struct_name) {
        Some(fields) => fields,
        None => {
            return None;
        },
    };
    let ghost all = fields_view(fields@);
    let top = same(table, "");
    proof {
        reveal_strlit("");
        assert(table@.len() == 0 ==> table@ =~= ""@);
    }
    let mut out: Vec<ConfigKey> = Vec::new();
    let mut i: usize = 0;
    assert(keys_view(out@) =~= Seq::empty());
    assert(all.take(0) =~= Seq::empty());
    while i < fields.len()
        invariant
            i <= fields.len(),
            all == fields_view(fields@),
            top == (table@.len() == 0),
            keys_below(source@, all.take(i as int), table@, depth as nat) == Some(keys_view(out@)),
            fields_of(source@, struct_name@) == Some(all),
        decreases fields.len() - i,
    {
        let ghost before = keys_view(out@);
        assert(all.take(i as int + 1).drop_last() =~= all.take(i as int));
        assert(all.take(i as int + 1).last() == fields[i as int]@);
        if !top {
            out.push(ConfigKey { table: String::from_str(table), key: fields[i].name.clone() });
        }
        let ghost mine = before + own_key(table@, fields[i as int].name@);
        assert(keys_view(out@) =~= mine);
        let inner = end_removed(option_removed(fields[i].kind.clone()).as_str(), '>');
        if table_type(inner.as_str()) {
            if depth == 0 {
                proof {
                    lemma_none_stays(source@, all, table@, depth as nat, i as int + 1);
                }
                return None;
            }
            let child = if top {
                fields[i].name.clone()
            } else {
                let mut child = String::from_str(table);
                child.append(".");
                child.append(fields[i].name.as_str());
                child
            };
            match walk_config_struct(source, inner.as_str(), child.as_str(), depth - 1) {
                Some(keys) => {
                    let ghost below = keys_view(keys@);
                    let mut keys = keys;
                    out.append(&mut keys);
                    assert(keys_view(out@) =~= mine + below);
                },
                None => {
                    proof {
                        lemma_none_stays(source@, all, table@, depth as nat, i as int + 1);
                    }
                    return None;
                },
            }
        }
        i += 1;
    }
    assert(all.take(fields.len() as int) =~= all);
    Some(out)
}

proof fn lemma_none_stays(
    source: Seq<char>,
    fields: Seq<Field<Seq<char>>>,
    table: Seq<char>,
    depth: nat,
    n: int,
)
    requires
        0 <= n <= fields.len(),
        keys_below(source, fields.take(n), table, depth) is None,
    ensures
        keys_below(source, fields, table, depth) is None,
    decreases fields.len() - n,
{
    if n < fields.len() {
        assert(fields.take(n + 1).drop_last() =~= fields.take(n));
        lemma_none_stays(source, fields, table, depth, n + 1);
    } else {
        assert(fields.take(n) =~= fields);
    }
}

/// Every key that the module reads, in the order in which they are met. A source
/// cannot nest structs deeper than it is long without naming one in itself.
pub fn pam_config_schema(source: &str) -> (r: Option<Vec<ConfigKey>>)
    ensures
        match r {
            Some(keys) => struct_keys(source@, "PamConfig"@, ""@, source@.len()) == Some(
                keys_view(keys@),
            ),
            None => struct_keys(source@, "PamConfig"@, ""@, source@.len()) is None,
        },
{
    let depth: usize = source.unicode_len();
    walk_config_struct(source, "PamConfig", "", depth)
}

// ---------------------------------------------------------------------------
// The documented configuration
// ---------------------------------------------------------------------------

/// The tokens of the arguments: what stands between their commas, trimmed.
pub open spec fn tokens_in(arguments: Seq<Seq<char>>) -> Seq<Seq<char>>
    decreases arguments.len(),
{
    if arguments.len() == 0 {
        Seq::empty()
    } else {
        tokens_in(arguments.drop_last()) + crate::text::split(arguments.last(), ","@).map_values(
            |t: Seq<char>| crate::text::trim(t),
        )
    }
}

/// The table that a token opens.
pub open spec fn opened_table(token: Seq<char>) -> Option<Seq<char>> {
    if crate::text::has_prefix(token, "["@) && crate::text::has_suffix(token.skip(1), "]"@) {
        Some(token.skip(1).drop_last())
    } else {
        None
    }
}

/// The table that the tokens leave open, and the keys that they name.
pub open spec fn documented(tokens: Seq<Seq<char>>) -> (
    Option<Seq<char>>,
    Seq<ConfigKey<Seq<char>>>,
)
    decreases tokens.len(),
{
    if tokens.len() == 0 {
        (None, Seq::empty())
    } else {
        let (table, keys) = documented(tokens.drop_last());
        let token = tokens.last();
        match opened_table(token) {
            Some(name) => (Some(name), keys),
            None => match table {
                Some(current) if token.len() > 0 && is_key_text(token) => (
                    table,
                    keys.push(ConfigKey { table: current, key: token }),
                ),
                _ => (table, keys),
            },
        }
    }
}

fn table_opened(token: &str) -> (r: Option<String>)
    ensures
        crate::text::opt_text(r) == opened_table(token@),
{
    proof {
        reveal_strlit("[");
        reveal_strlit("]");
    }
    match strip_prefix(token, "[") {
        Some(rest) => {
            if ends_with(rest.as_str(), "]") {
                let v = chars_of(rest.as_str());
                let inside = piece(&v, 0, v.len() - 1);
                assert(inside@ =~= token@.skip(1).drop_last());
                Some(string_of(&inside))
            } else {
                None
            }
        },
        None => None,
    }
}

fn tokens_of(arguments: &Vec<String>) -> (r: Vec<String>)
    ensures
        crate::text::texts(r@) == tokens_in(crate::text::texts(arguments@)),
{
    let ghost all = crate::text::texts(arguments@);
    let mut out: Vec<String> = Vec::new();
    let mut i: usize = 0;
    assert(crate::text::texts(out@) =~= tokens_in(all.take(0)));
    while i < arguments.len()
        invariant
            i <= arguments.len(),
            all == crate::text::texts(arguments@),
            crate::text::texts(out@) == tokens_in(all.take(i as int)),
        decreases arguments.len() - i,
    {
        let ghost before = crate::text::texts(out@);
        assert(all.take(i as int + 1).drop_last() =~= all.take(i as int));
        assert(all[i as int] == arguments[i as int]@);
        proof {
            reveal_strlit(",");
        }
        let parts = pieces_of(arguments[i].as_str(), ",");
        let ghost split = crate::text::texts(parts@);
        let mut j: usize = 0;
        assert(before =~= before + split.take(0).map_values(
            |t: Seq<char>| crate::text::trim(t),
        ));
        while j < parts.len()
            invariant
                j <= parts.len(),
                split == crate::text::texts(parts@),
                crate::text::texts(out@) == before + split.take(j as int).map_values(
                    |t: Seq<char>| crate::text::trim(t),
                ),
            decreases parts.len() - j,
        {
            let ghost so_far = crate::text::texts(out@);
            let token = trimmed(parts[j].as_str());
            out.push(token);
            assert(crate::text::texts(out@) =~= so_far.push(token@));
            assert(split[j as int] == parts[j as int]@);
            j += 1;
            assert(crate::text::texts(out@) =~= before + split.take(j as int).map_values(
                |t: Seq<char>| crate::text::trim(t),
            ));
        }
        assert(split.take(parts.len() as int) =~= split);
        i += 1;
    }
    assert(all.take(arguments.len() as int) =~= all);
    out
}

/// The keys that the configuration section of the page documents, in order: a
/// name in brackets opens a table, and the lower-case names after it are its
/// keys.
pub fn documented_config_schema(section: &str) -> (r: Vec<ConfigKey>)
    ensures
        keys_view(r@) == documented(
            tokens_in(arguments_in(crate::text::lines(section@), seq![".B"@, ".BR"@])),
        ).1,
{
    let mut macros: Vec<String> = Vec::new();
    macros.push(String::from_str(".B"));
    macros.push(String::from_str(".BR"));
    assert(crate::text::texts(macros@) =~= seq![".B"@, ".BR"@]);
    let tokens = tokens_of(&macro_arguments(section, &macros));
    let ghost all = crate::text::texts(tokens@);
    let mut table: Option<String> = None;
    let mut out: Vec<ConfigKey> = Vec::new();
    let mut i: usize = 0;
    assert(keys_view(out@) =~= Seq::empty());
    while i < tokens.len()
        invariant
            i <= tokens.len(),
            all == crate::text::texts(tokens@),
            crate::text::opt_text(table) == documented(all.take(i as int)).0,
            keys_view(out@) == documented(all.take(i as int)).1,
        decreases tokens.len() - i,
    {
        let ghost before = keys_view(out@);
        let ghost current = crate::text::opt_text(table);
        assert(all.take(i as int + 1).drop_last() =~= all.take(i as int));
        assert(all.take(i as int + 1).last() == tokens[i as int]@);
        let token = tokens[i].as_str();
        match table_opened(token) {
            Some(name) => {
                table = Some(name);
            },
            None => {
                proof {
                    reveal_strlit("");
                    assert(token@.len() == 0 ==> token@ =~= ""@);
                }
                if !same(token, "") && key_text(token) {
                    if let Some(name) = &table {
                        out.push(ConfigKey { table: name.clone(), key: tokens[i].clone() });
                        assert(keys_view(out@) =~= before.push(
                            ConfigKey { table: name@, key: tokens[i as int]@ },
                        ));
                    }
                }
            },
        }
        i += 1;
    }
    assert(all.take(tokens.len() as int) =~= all);
    out
}

// ---------------------------------------------------------------------------
// Examples
// ---------------------------------------------------------------------------

/// The command of a line in an example, without `sudo`.
pub open spec fn bare_command(line: Seq<char>) -> Seq<char> {
    let t = crate::text::trim(line);
    crate::text::trim(
        if crate::text::has_prefix(t, "sudo "@) {
            t.skip("sudo "@.len() as int)
        } else {
            t
        },
    )
}

/// Whether a command is one of this program.
pub open spec fn is_invocation(command: Seq<char>) -> bool {
    command == "facelock"@ || crate::text::has_prefix(command, "facelock "@)
}

/// Whether the lines leave an example open, and the invocations in them.
pub open spec fn invocations(lines: Seq<Seq<char>>) -> (bool, Seq<Seq<Seq<char>>>)
    decreases lines.len(),
{
    if lines.len() == 0 {
        (false, Seq::empty())
    } else {
        let (open, before) = invocations(lines.drop_last());
        let line = lines.last();
        if crate::text::trim(line) == ".nf"@ {
            (true, before)
        } else if crate::text::trim(line) == ".fi"@ {
            (false, before)
        } else if open && is_invocation(bare_command(line)) {
            (open, before.push(crate::text::words(bare_command(line))))
        } else {
            (open, before)
        }
    }
}

/// The invocations with sequences in place of vectors and strings.
pub open spec fn argv_view(list: Seq<Vec<String>>) -> Seq<Seq<Seq<char>>> {
    list.map_values(|argv: Vec<String>| crate::text::texts(argv@))
}

/// The invocations of this program in the examples of the page, each as its
/// words.
pub fn documented_invocations(page: &str) -> (r: Vec<Vec<String>>)
    ensures
        argv_view(r@) == invocations(crate::text::lines(page@)).1,
{
    let lines = lines_of(page);
    let ghost all = crate::text::lines(page@);
    let mut open = false;
    let mut out: Vec<Vec<String>> = Vec::new();
    let mut i: usize = 0;
    assert(argv_view(out@) =~= Seq::empty());
    while i < lines.len()
        invariant
            i <= lines.len(),
            all == crate::text::texts(lines@),
            open == invocations(all.take(i as int)).0,
            argv_view(out@) == invocations(all.take(i as int)).1,
        decreases lines.len() - i,
    {
        let ghost before = argv_view(out@);
        assert(all.take(i as int + 1).drop_last() =~= all.take(i as int));
        assert(all.take(i as int + 1).last() == lines[i as int]@);
        let line = trimmed(lines[i].as_str());
        if same(line.as_str(), ".nf") {
            open = true;
        } else if same(line.as_str(), ".fi") {
            open = false;
        } else if open {
            let command = match strip_prefix(line.as_str(), "sudo ") {
                Some(rest) => trimmed(rest.as_str()),
                None => trimmed(line.as_str()),
            };
            if same(command.as_str(), "facelock") || starts_with(command.as_str(), "facelock ") {
                let argv = words_of(command.as_str());
                out.push(argv);
                assert(argv_view(out@) =~= before.push(crate::text::words(command@)));
            }
        }
        i += 1;
    }
    assert(all.take(lines.len() as int) =~= all);
    out
}

// ---------------------------------------------------------------------------
// Laws
// ---------------------------------------------------------------------------

/// A section is what stands behind its heading, up to the next heading or to the
/// page's end, and holds no other heading. There is one exactly if the page has the
/// heading.
pub proof fn law_a_section_ends_at_the_next_heading(page: Seq<char>, heading: Seq<char>)
    ensures
        section_of(page, heading) is Some <==> crate::text::contains(page, heading),
        section_of(page, heading) matches Some(section) ==> ({
            let start: int = crate::text::find(page, heading)->0 as int + heading.len();
            let end: int = start + section.len();
            &&& end <= page.len()
            &&& page.subrange(start, end) == section
            &&& end == page.len() || crate::text::has_prefix(page.skip(end), "\n.SH "@)
        }),
        section_of(page, heading) matches Some(section) ==> !crate::text::contains(
            section,
            "\n.SH "@,
        ),
{
    crate::text::law_a_text_is_cut_at_the_first_mark(page, heading, page, page);
    if let Some((front, body)) = crate::text::cut(page, heading) {
        crate::text::law_a_text_is_cut_at_the_first_mark(body, "\n.SH "@, body, body);
        crate::text::lemma_find(page, heading);
        crate::text::lemma_find(body, "\n.SH "@);
        assert(front.len() == crate::text::find(page, heading)->0);
        match crate::text::cut(body, "\n.SH "@) {
            Some((section, rest)) => {
                let mark = "\n.SH "@;
                reveal_strlit("\n.SH ");
                let back = mark + rest;
                assert(page == front + heading + body);
                assert(body == section + mark + rest);
                assert(body =~= section + back);
                assert(page =~= front + heading + section + back);
                let start: int = front.len() as int + heading.len();
                assert(page.subrange(start, start + section.len()) =~= section);
                assert(page.skip(start + section.len()) =~= back);
                assert(back.take(mark.len() as int) =~= mark);
                assert(crate::text::has_prefix(back, mark));
                assert(section_of(page, heading) == Some(section));
                crate::text::law_a_text_is_cut_at_the_first_mark(section, mark, section, section);
                if let Some((x, y)) = crate::text::cut(section, mark) {
                    let later = y + mark + rest;
                    assert(body =~= x + mark + later);
                    crate::text::law_a_text_is_cut_at_the_first_mark(body, mark, x, later);
                    assert(section.len() == x.len() + mark.len() + y.len());
                }
            },
            None => {
                let back = Seq::<char>::empty();
                assert(page == front + heading + body);
                assert(page =~= front + heading + body + back);
                assert(page.subrange(front.len() as int + heading.len(), page.len() as int) =~= body);
                assert(section_of(page, heading) == Some(body));
            },
        }
    }
}

/// A line that calls a macro has what stands behind it, trimmed, as its argument;
/// of several macros the first that fits counts; and any other line has none.
pub proof fn law_a_call_has_the_rest_of_its_line(
    line: Seq<char>,
    macros: Seq<Seq<char>>,
    i: int,
)
    requires
        0 <= i <= macros.len(),
        forall|j: int|
            0 <= j < i ==> !crate::text::has_prefix(line, #[trigger] macros[j] + " "@),
        i < macros.len() ==> crate::text::has_prefix(line, macros[i] + " "@),
    ensures
        i == macros.len() ==> argument_in(line, macros) is None,
        i < macros.len() ==> argument_in(line, macros) == Some(
            crate::text::trim(line.skip((macros[i] + " "@).len() as int)),
        ),
    decreases macros.len(),
{
    if macros.len() > 0 && i > 0 {
        let rest = macros.skip(1);
        assert(!crate::text::has_prefix(line, macros[0] + " "@));
        assert forall|j: int| 0 <= j < i - 1 implies !crate::text::has_prefix(
            line,
            #[trigger] rest[j] + " "@,
        ) by {
            assert(rest[j] == macros[j + 1]);
        }
        if i < macros.len() {
            assert(rest[i - 1] == macros[i]);
        }
        law_a_call_has_the_rest_of_its_line(line, rest, i - 1);
    }
}

/// What is read line by line is read in order, each line for itself: one more line
/// adds what it holds, at the end, and changes nothing before.
pub proof fn law_lines_are_read_in_order(
    lines: Seq<Seq<char>>,
    line: Seq<char>,
    macros: Seq<Seq<char>>,
)
    ensures
        arguments_in(lines.push(line), macros) == match argument_in(line, macros) {
            Some(argument) => arguments_in(lines, macros).push(argument),
            None => arguments_in(lines, macros),
        },
        declared(lines.push(line)) == match declared_in(line) {
            Some(code) => declared(lines).push(code),
            None => declared(lines),
        },
        granted(lines.push(line)) == match granted_in(line) {
            Some(name) => granted(lines).push(name),
            None => granted(lines),
        },
        fields_in(lines.push(line)) == match field_in(line) {
            Some(field) => fields_in(lines).push(field),
            None => fields_in(lines),
        },
        arguments_in(Seq::empty(), macros).len() == 0,
        declared(Seq::empty()).len() == 0,
        granted(Seq::empty()).len() == 0,
        fields_in(Seq::empty()).len() == 0,
{
    assert(lines.push(line).drop_last() =~= lines);
}

/// The code that a declaration of the source declares is its name, with its prefix.
pub proof fn law_a_declaration_declares_its_name(name: Seq<char>, rest: Seq<char>)
    requires
        forall|k: int| 0 <= k < name.len() ==> #[trigger] name[k] != ':',
        crate::text::contains(name + ":"@ + rest, "libc::c_int"@),
    ensures
        declared_in("const PAM_"@ + name + ":"@ + rest) == Some("PAM_"@ + name),
{
    reveal_strlit("const PAM_");
    reveal_strlit(":");
    let line = "const PAM_"@ + name + ":"@ + rest;
    let body = name + ":"@ + rest;
    assert(line.take("const PAM_"@.len() as int) =~= "const PAM_"@);
    assert(line.skip("const PAM_"@.len() as int) =~= body);
    crate::text::law_find_is_leftmost(body, ":"@, name, rest);
    let n = crate::text::find(body, ":"@)->0 as int;
    assert(body.subrange(n, n + 1)[0] == body[n]);
    if n < name.len() {
        assert(name[n] == ':');
    }
    assert(body.take(n) =~= name);
    assert(crate::text::split(body, ":"@)[0] =~= name);
}

/// A line declares a code only if it is a declaration of one.
pub proof fn law_only_declarations_declare(line: Seq<char>)
    ensures
        declared_in(line) is Some <==> crate::text::has_prefix(line, "const PAM_"@)
            && crate::text::contains(line.skip("const PAM_"@.len() as int), "libc::c_int"@),
{
}

/// A code counts as returned exactly if some `return` names it or some line holds it
/// alone.
pub proof fn law_a_code_is_returned_where_it_is_named(
    source: Seq<char>,
    code: Seq<char>,
    front: Seq<char>,
    back: Seq<char>,
    i: int,
)
    ensures
        source == front + ("return "@ + code + ";"@) + back ==> is_returned(source, code),
        0 <= i < crate::text::lines(source).len() && crate::text::trim(
            crate::text::lines(source)[i],
        ) == code ==> is_returned(source, code),
        is_returned(source, code) && !crate::text::contains(source, "return "@ + code + ";"@)
            ==> exists|k: int|
            0 <= k < crate::text::lines(source).len() && crate::text::trim(
                #[trigger] crate::text::lines(source)[k],
            ) == code,
{
    if source == front + ("return "@ + code + ";"@) + back {
        crate::text::law_find_is_leftmost(source, "return "@ + code + ";"@, front, back);
    }
    if 0 <= i < crate::text::lines(source).len() && crate::text::trim(crate::text::lines(source)[i])
        == code {
        assert(is_returned(source, code));
    }
}

/// The value of a constant is what stands between the quotes of its declaration.
pub proof fn law_a_constant_is_what_its_quotes_hold(source: Seq<char>, name: Seq<char>)
    ensures
        constant_value(source, name) matches Some(value) ==> !value.contains('"')
            && crate::text::contains(
            source,
            "const "@ + name + ": &str = \""@ + value + "\""@,
        ),
        !crate::text::contains(source, "const "@ + name + ": &str = \""@) ==> constant_value(
            source,
            name,
        ) is None,
{
    reveal_strlit("\"");
    let needle = "const "@ + name + ": &str = \""@;
    crate::text::law_a_text_is_cut_at_the_first_mark(source, needle, source, source);
    if let Some((front, rest)) = crate::text::cut(source, needle) {
        crate::text::law_a_text_is_cut_at_the_first_mark(rest, "\""@, rest, rest);
        if let Some((value, back)) = crate::text::cut(rest, "\""@) {
            let whole = needle + value + "\""@;
            assert(source == front + needle + rest);
            assert(rest == value + "\""@ + back);
            assert(source =~= front + whole + back);
            crate::text::law_find_is_leftmost(source, whole, front, back);
            assert(constant_value(source, name) == Some(value));
            lemma_nothing_before_the_quote(rest, value, back);
        }
    }
}

proof fn lemma_nothing_before_the_quote(rest: Seq<char>, value: Seq<char>, back: Seq<char>)
    requires
        crate::text::cut(rest, "\""@) == Some((value, back)),
    ensures
        !value.contains('"'),
{
    reveal_strlit("\"");
    crate::text::law_a_text_is_cut_at_the_first_mark(rest, "\""@, rest, rest);
    if value.contains('"') {
        let k = choose|k: int| 0 <= k < value.len() && value[k] == '"';
        let a = rest.take(k);
        let b = rest.skip(k + 1);
        assert(rest[k] == '"');
        assert(rest =~= a + "\""@ + b);
        crate::text::law_a_text_is_cut_at_the_first_mark(rest, "\""@, a, b);
    }
}

/// The method that a line of the policy grants is what its quotes hold, and no line
/// without the attribute grants one.
pub proof fn law_a_grant_is_what_its_quotes_hold(line: Seq<char>)
    ensures
        granted_in(line) matches Some(name) ==> !name.contains('"') && crate::text::has_prefix(
            crate::text::trim(line),
            "send_member=\""@ + name + "\""@,
        ),
        !crate::text::has_prefix(crate::text::trim(line), "send_member=\""@) ==> granted_in(
            line,
        ) is None,
{
    let t = crate::text::trim(line);
    let front = "send_member=\""@;
    if crate::text::has_prefix(t, front) {
        let rest = t.skip(front.len() as int);
        crate::text::law_a_text_is_cut_at_the_first_mark(rest, "\""@, rest, rest);
        if let Some((name, back)) = crate::text::cut(rest, "\""@) {
            lemma_nothing_before_the_quote(rest, name, back);
            assert(t =~= front + rest);
            assert(rest == name + "\""@ + back);
            assert(front + rest =~= front + name + "\""@ + back);
            let whole = front + name + "\""@;
            assert(t == whole + back);
            assert(t.take(whole.len() as int) =~= whole);
            assert(granted_in(line) == Some(name));
        }
    }
}

/// The struct that a field's type names is the same whether the field is optional or
/// not.
pub proof fn law_an_optional_table_is_the_same_table(kind: Seq<char>)
    requires
        kind.len() > 0,
        kind.last() != '>',
        kind[0] != 'O',
    ensures
        inner_type(kind) == kind,
        inner_type("Option<"@ + kind + ">"@) == kind,
{
    reveal_strlit("Option<");
    reveal_strlit(">");
    let mark = "Option<"@;
    let whole = mark + kind + ">"@;
    let inside = kind + ">"@;
    assert(whole.take(mark.len() as int) =~= mark);
    assert(whole.skip(mark.len() as int) =~= inside);
    assert(mark[0] == 'O');
    if crate::text::has_prefix(inside, mark) {
        assert(inside.take(mark.len() as int)[0] == inside[0]);
    }
    if crate::text::has_prefix(kind, mark) {
        assert(kind.take(mark.len() as int)[0] == kind[0]);
    }
    assert(without_option(inside) == inside);
    assert(without_option(kind) == kind);
    assert(without_option(whole) == without_option(inside));
    assert(inside.drop_last() =~= kind);
    assert(without_end(kind, '>') == kind);
    assert(inside.last() == '>');
    assert(without_end(inside, '>') == without_end(kind, '>'));
}

/// A field of a struct is read by its name and its type, without the comma.
pub proof fn law_a_field_is_its_name_and_its_type(name: Seq<char>, kind: Seq<char>)
    requires
        name.len() > 0,
        is_key_text(name),
        kind.len() > 0,
        !crate::text::is_space(kind[0]),
        kind.last() != ',',
    ensures
        field_in("    "@ + name + ": "@ + kind + ","@) == Some(Field { name, kind }),
{
    reveal_strlit("    ");
    reveal_strlit(": ");
    reveal_strlit(",");
    let line = "    "@ + name + ": "@ + kind + ","@;
    let rest = kind + ","@;
    let field = name + ": "@ + rest;
    assert(line.take("    "@.len() as int) =~= "    "@);
    assert(line.skip("    "@.len() as int) =~= field);
    assert(field[0] == name[0]);
    assert(is_key_char(name[0]));
    crate::text::law_find_is_leftmost(field, ": "@, name, rest);
    let n = crate::text::find(field, ": "@)->0 as int;
    assert(field.subrange(n, n + 2)[0] == field[n]);
    if n < name.len() {
        assert(is_key_char(name[n]));
    }
    assert(field.take(n) =~= name);
    assert(field.skip(n + 2) =~= rest);
    assert(crate::text::cut(field, ": "@) == Some((name, rest)));
    lemma_type_without_comma(kind);
}

proof fn lemma_type_without_comma(kind: Seq<char>)
    requires
        kind.len() > 0,
        !crate::text::is_space(kind[0]),
        kind.last() != ',',
    ensures
        without_end(crate::text::trim(kind + ","@), ',') == kind,
{
    reveal_strlit(",");
    let rest = kind + ","@;
    let none = Seq::<char>::empty();
    assert(rest[0] == kind[0] && rest.last() == ',');
    crate::text::law_trim_leaves_the_middle(none, rest, none);
    assert(none + rest + none =~= rest);
    assert(rest.drop_last() =~= kind);
    assert(without_end(kind, ',') == kind);
    assert(without_end(rest, ',') == without_end(rest.drop_last(), ','));
}

/// A key stands in its table; at the top there are only tables; and the tables of a
/// table go by its name and their own.
pub proof fn law_keys_stand_in_tables(
    source: Seq<char>,
    fields: Seq<Field<Seq<char>>>,
    field: Field<Seq<char>>,
    table: Seq<char>,
    depth: nat,
)
    requires
        keys_below(source, fields, table, depth) is Some,
        !is_table_type(inner_type(field.kind)),
    ensures
        ({
            let before = keys_below(source, fields, table, depth)->0;
            keys_below(source, fields.push(field), table, depth) == Some(
                if table.len() == 0 {
                    before
                } else {
                    before.push(ConfigKey { table, key: field.name })
                },
            )
        }),
        child_table(Seq::empty(), field.name) == field.name,
        table.len() > 0 ==> child_table(table, field.name) == table + "."@ + field.name,
{
    assert(fields.push(field).drop_last() =~= fields);
    let before = keys_below(source, fields, table, depth)->0;
    if table.len() == 0 {
        assert(before + own_key(table, field.name) =~= before);
    } else {
        assert(before + own_key(table, field.name) =~= before.push(
            ConfigKey { table, key: field.name },
        ));
    }
}

/// A field whose type is a configuration struct is a table: the keys of that struct
/// come behind it, under its name; and without that struct, or too far down, there
/// is no reading at all.
pub proof fn law_a_table_holds_the_keys_of_its_struct(
    source: Seq<char>,
    fields: Seq<Field<Seq<char>>>,
    field: Field<Seq<char>>,
    table: Seq<char>,
    depth: nat,
)
    requires
        keys_below(source, fields, table, depth) is Some,
        is_table_type(inner_type(field.kind)),
    ensures
        ({
            let inner = inner_type(field.kind);
            let before = keys_below(source, fields, table, depth)->0;
            let whole = keys_below(source, fields.push(field), table, depth);
            &&& depth == 0 || fields_of(source, inner) is None ==> whole is None
            &&& depth > 0 ==> (struct_keys(
                source,
                inner,
                child_table(table, field.name),
                (depth - 1) as nat,
            ) matches Some(keys) ==> (whole matches Some(all) && all.len() >= before.len()
                + keys.len() && all.take(before.len() as int) == before && all.skip(
                all.len() - keys.len(),
            ) == keys))
        }),
{
    assert(fields.push(field).drop_last() =~= fields);
    let before = keys_below(source, fields, table, depth)->0;
    let inner = inner_type(field.kind);
    if depth > 0 {
        if let Some(keys) = struct_keys(
            source,
            inner,
            child_table(table, field.name),
            (depth - 1) as nat,
        ) {
            let mine = before + own_key(table, field.name);
            let all = mine + keys;
            assert(all.take(before.len() as int) =~= before);
            assert(all.skip(all.len() - keys.len()) =~= keys);
        }
    }
}

/// A token in square brackets opens the table that it names, any other opens none;
/// and a key that follows belongs to the table that was opened last.
pub proof fn law_a_documented_key_belongs_to_the_last_table(
    tokens: Seq<Seq<char>>,
    name: Seq<char>,
    key: Seq<char>,
)
    requires
        key.len() > 0,
        is_key_text(key),
    ensures
        opened_table("["@ + name + "]"@) == Some(name),
        documented(tokens.push("["@ + name + "]"@)) == (Some(name), documented(tokens).1),
        documented(tokens.push(key)) == (
            documented(tokens).0,
            match documented(tokens).0 {
                Some(table) => documented(tokens).1.push(ConfigKey { table, key }),
                None => documented(tokens).1,
            },
        ),
        documented(Seq::empty()) == (None::<Seq<char>>, Seq::<ConfigKey<Seq<char>>>::empty()),
{
    reveal_strlit("[");
    reveal_strlit("]");
    let token = "["@ + name + "]"@;
    assert(token.take(1) =~= "["@);
    assert(token.skip(1) =~= name + "]"@);
    assert((name + "]"@).skip(name.len() as int) =~= "]"@);
    assert((name + "]"@).drop_last() =~= name);
    assert(tokens.push(token).drop_last() =~= tokens);
    assert(tokens.push(key).drop_last() =~= tokens);
    assert(is_key_char(key[0]));
    if crate::text::has_prefix(key, "["@) {
        assert(key.take(1)[0] == key[0]);
    }
}

/// The tokens of arguments are what stands between their commas, in order.
pub proof fn law_tokens_stand_between_commas(arguments: Seq<Seq<char>>, argument: Seq<char>, i: int)
    requires
        0 <= i < crate::text::split(argument, ","@).len(),
    ensures
        ({
            let before = tokens_in(arguments);
            let all = tokens_in(arguments.push(argument));
            &&& all.len() == before.len() + crate::text::split(argument, ","@).len()
            &&& all.take(before.len() as int) == before
            &&& all[before.len() + i] == crate::text::trim(crate::text::split(argument, ","@)[i])
        }),
{
    assert(arguments.push(argument).drop_last() =~= arguments);
    let before = tokens_in(arguments);
    let all = tokens_in(arguments.push(argument));
    assert(all.take(before.len() as int) =~= before);
}

/// A command of this program is an invocation whether or not `sudo` stands before
/// it, inside an example and nowhere else.
pub proof fn law_invocations_stand_in_examples(lines: Seq<Seq<char>>, line: Seq<char>)
    requires
        crate::text::trim(line) != ".nf"@,
        crate::text::trim(line) != ".fi"@,
    ensures
        ({
            let (open, before) = invocations(lines);
            let command = bare_command(line);
            invocations(lines.push(line)) == (
                open,
                if open && (command == "facelock"@ || crate::text::has_prefix(
                    command,
                    "facelock "@,
                )) {
                    before.push(crate::text::words(command))
                } else {
                    before
                },
            )
        }),
        forall|mark: Seq<char>|
            crate::text::trim(mark) == ".nf"@ ==> #[trigger] invocations(lines.push(mark)) == (
                true,
                invocations(lines).1,
            ),
        forall|mark: Seq<char>|
            crate::text::trim(mark) == ".fi"@ ==> #[trigger] invocations(lines.push(mark)) == (
                false,
                invocations(lines).1,
            ),
        !invocations(Seq::empty()).0,
{
    reveal_strlit(".nf");
    reveal_strlit(".fi");
    assert(".nf"@[1] == 'n' && ".fi"@[1] == 'f');
    assert(lines.push(line).drop_last() =~= lines);
    assert forall|mark: Seq<char>| crate::text::trim(mark) == ".nf"@ implies #[trigger] invocations(
        lines.push(mark),
    ) == (true, invocations(lines).1) by {
        assert(lines.push(mark).drop_last() =~= lines);
    }
    assert forall|mark: Seq<char>| crate::text::trim(mark) == ".fi"@ implies #[trigger] invocations(
        lines.push(mark),
    ) == (false, invocations(lines).1) by {
        assert(lines.push(mark).drop_last() =~= lines);
    }
}

/// `sudo` before a command makes no difference.
pub proof fn law_sudo_makes_no_difference(command: Seq<char>)
    requires
        command.len() > 0,
        !crate::text::is_space(command[0]),
        !crate::text::is_space(command.last()),
        !crate::text::has_prefix(command, "sudo "@),
    ensures
        bare_command(command) == command,
        bare_command("sudo "@ + command) == command,
{
    reveal_strlit("sudo ");
    let none = Seq::<char>::empty();
    let with = "sudo "@ + command;
    crate::text::law_trim_leaves_the_middle(none, command, none);
    crate::text::law_trim_leaves_the_middle(none, with, none);
    assert(none + command + none =~= command);
    assert(none + with + none =~= with);
    assert(with.take("sudo "@.len() as int) =~= "sudo "@);
    assert(with.skip("sudo "@.len() as int) =~= command);
}

/// A code is one that the module can hand back exactly if its source declares it
/// and returns it.
pub proof fn law_codes_are_declared_and_returned(source: Seq<char>, code: Seq<char>)
    ensures
        return_codes(source).contains(code) <==> declared(crate::text::lines(source)).contains(
            code,
        ) && is_returned(source, code),
{
    lemma_filter_keeps(declared(crate::text::lines(source)), source, code);
}

proof fn lemma_filter_keeps(codes: Seq<Seq<char>>, source: Seq<char>, code: Seq<char>)
    ensures
        codes.filter(|c: Seq<char>| is_returned(source, c)).contains(code) <==> codes.contains(code)
            && is_returned(source, code),
    decreases codes.len(),
{
    reveal(Seq::filter);
    let keep = |c: Seq<char>| is_returned(source, c);
    if codes.len() > 0 {
        let front = codes.drop_last();
        lemma_filter_keeps(front, source, code);
        let kept = front.filter(keep);
        assert(codes.contains(code) <==> front.contains(code) || codes.last() == code) by {
            if front.contains(code) {
                let i = choose|i: int| 0 <= i < front.len() && front[i] == code;
                assert(codes[i] == code);
            }
            if codes.contains(code) && codes.last() != code {
                let i = choose|i: int| 0 <= i < codes.len() && codes[i] == code;
                assert(front[i] == code);
            }
            assert(codes[codes.len() - 1] == codes.last());
        }
        assert(kept.push(codes.last()).contains(code) <==> kept.contains(code) || codes.last()
            == code) by {
            let pushed = kept.push(codes.last());
            if kept.contains(code) {
                let i = choose|i: int| 0 <= i < kept.len() && kept[i] == code;
                assert(pushed[i] == code);
            }
            if pushed.contains(code) && codes.last() != code {
                let i = choose|i: int| 0 <= i < pushed.len() && pushed[i] == code;
                assert(kept[i] == code);
            }
            assert(pushed[pushed.len() - 1] == codes.last());
        }
    }
}

/// Every documented key stands under a table that the section opened.
pub proof fn law_documented_keys_have_a_table(tokens: Seq<Seq<char>>, i: int)
    requires
        0 <= i < documented(tokens).1.len(),
    ensures
        exists|j: int|
            0 <= j < tokens.len() && opened_table(#[trigger] tokens[j]) == Some(
                documented(tokens).1[i].table,
            ),
        is_key_text(documented(tokens).1[i].key),
        documented(tokens).1[i].key.len() > 0,
    decreases tokens.len(),
{
    lemma_open_table_was_opened(tokens);
    if tokens.len() > 0 {
        let front = tokens.drop_last();
        lemma_open_table_was_opened(front);
        if i < documented(front).1.len() {
            law_documented_keys_have_a_table(front, i);
            let j = choose|j: int|
                0 <= j < front.len() && opened_table(#[trigger] front[j]) == Some(
                    documented(front).1[i].table,
                );
            assert(tokens[j] == front[j]);
        } else {
            let j = choose|j: int|
                0 <= j < front.len() && opened_table(#[trigger] front[j]) == documented(front).0;
            assert(tokens[j] == front[j]);
        }
    }
}

proof fn lemma_open_table_was_opened(tokens: Seq<Seq<char>>)
    ensures
        documented(tokens).0 is Some ==> exists|j: int|
            0 <= j < tokens.len() && opened_table(#[trigger] tokens[j]) == documented(tokens).0,
    decreases tokens.len(),
{
    if tokens.len() > 0 {
        let front = tokens.drop_last();
        lemma_open_table_was_opened(front);
        if opened_table(tokens.last()) is Some {
            assert(opened_table(tokens[tokens.len() - 1]) == documented(tokens).0);
        } else if documented(front).0 is Some {
            let j = choose|j: int|
                0 <= j < front.len() && opened_table(#[trigger] front[j]) == documented(front).0;
            assert(tokens[j] == front[j]);
        }
    }
}

} // verus!
