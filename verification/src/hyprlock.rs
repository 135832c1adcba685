//! `facelock hyprlock`: the edits to `hyprlock.conf`.

use crate::paths::joined_path;
use crate::text::{
    chars_of, find_from, holds, joined, lines_of, piece, same, starts_with, string_of,
    strip_prefix, trim_start_chars, trimmed, yes_or_no,
};
use vstd::prelude::*;
use vstd::string::*;

verus! {

/// The icon that shows that a face is looked for.
pub const FACE_ICON: &'static str = "\u{f0100}";

/// The icon that shows that a fingerprint is looked for.
pub const FP_ICON: &'static str = "\u{f0237}";

/// Suffix of the copy taken before the first edit.
pub const BACKUP_SUFFIX: &'static str = ".facelock-backup";

/// The service file whose fingerprint line is respected.
pub const PAM_HYPRLOCK_PATH: &'static str = "/etc/pam.d/hyprlock";

/// What `facelock hyprlock` is asked to do.
#[derive(Debug, Clone, Copy, PartialEq, Eq, Structural)]
pub enum HyprlockCommand {
    /// Add face icon and enable empty-Enter submission in hyprlock.conf
    Enable,
    /// Remove face icon and (if no fingerprint coexists) restore ignore_empty_input
    Disable,
    /// Show current hyprlock integration state
    Status,
}

// ---------------------------------------------------------------------------
// Lines
// ---------------------------------------------------------------------------

/// Whether a line sets a key: it begins with the key and has an equals sign.
pub open spec fn sets(line: Seq<char>, key: Seq<char>) -> bool {
    let t = crate::text::trim_start(line);
    crate::text::has_prefix(t, key) && crate::text::contains(t, "="@)
}

/// The value that a line gives a key: what follows the first equals sign after
/// it, trimmed.
pub open spec fn value_in(line: Seq<char>, key: Seq<char>) -> Option<Seq<char>> {
    let t = crate::text::trim_start(line);
    if crate::text::has_prefix(t, key) {
        let rest = t.skip(key.len() as int);
        match crate::text::find(rest, "="@) {
            Some(i) => Some(crate::text::trim(rest.skip(i as int + 1))),
            None => None,
        }
    } else {
        None
    }
}

/// The value that the first line to set a key gives it.
pub open spec fn first_value(lines: Seq<Seq<char>>, key: Seq<char>) -> Option<Seq<char>>
    decreases lines.len(),
{
    if lines.len() == 0 {
        None
    } else {
        match value_in(lines[0], key) {
            Some(v) => Some(v),
            None => first_value(lines.skip(1), key),
        }
    }
}

/// Whether a value means yes.
pub open spec fn is_yes(value: Seq<char>) -> bool {
    value == "true"@ || value == "1"@ || value == "yes"@
}

/// Whether a value means no.
pub open spec fn is_no(value: Seq<char>) -> bool {
    value == "false"@ || value == "0"@ || value == "no"@
}

/// What `ignore_empty_input` is set to, where its first line says so in words
/// that are understood.
pub open spec fn ignore_empty(content: Seq<char>) -> Option<bool> {
    match first_value(crate::text::lines(content), "ignore_empty_input"@) {
        Some(v) => if is_yes(v) {
            Some(true)
        } else if is_no(v) {
            Some(false)
        } else {
            None
        },
        None => None,
    }
}

/// The white space that a line begins with.
pub open spec fn indent_of(line: Seq<char>) -> Seq<char> {
    line.take(line.len() - crate::text::trim_start(line).len())
}

/// Whether the part of a line after its indent holds a text.
pub open spec fn line_holds(line: Seq<char>, t: Seq<char>) -> bool {
    crate::text::contains(crate::text::trim_start(line), t)
}

/// The text of a file with these lines, ended or not as the file was.
pub open spec fn with_lines(lines: Seq<Seq<char>>, content: Seq<char>) -> Seq<char> {
    crate::text::join(lines, seq!['\n']) + crate::text::feed(crate::text::ends_feed(content))
}

/// The value that a line gives a key.
pub fn value_of(line: &str, key: &str) -> (r: Option<String>)
    ensures
        match r {
            Some(v) => value_in(line@, key@) == Some(v@),
            None => value_in(line@, key@) is None,
        },
{
    let v = chars_of(line);
    let t = string_of(&trim_start_chars(&v));
    match strip_prefix(t.as_str(), key) {
        Some(rest) => {
            let rest = chars_of(rest.as_str());
            let equals = chars_of("=");
            proof {
                reveal_strlit("=");
            }
            assert(rest@.skip(0) == rest@);
            match find_from(&rest, &equals, 0) {
                Some(i) => {
                    let value = piece(&rest, i + 1, rest.len());
                    assert(value@ == rest@.skip(i as int + 1));
                    Some(trimmed(string_of(&value).as_str()))
                },
                None => None,
            }
        },
        None => None,
    }
}

fn sets_key(line: &str, key: &str) -> (r: bool)
    ensures
        r == sets(line@, key@),
{
    let v = chars_of(line);
    let t = string_of(&trim_start_chars(&v));
    starts_with(t.as_str(), key) && holds(t.as_str(), "=")
}

fn has_text(line: &str, text: &str) -> (r: bool)
    ensures
        r == line_holds(line@, text@),
{
    let v = chars_of(line);
    let t = string_of(&trim_start_chars(&v));
    holds(t.as_str(), text)
}

fn indent(line: &str) -> (r: String)
    ensures
        r@ == indent_of(line@),
{
    let v = chars_of(line);
    let t = trim_start_chars(&v);
    proof {
        crate::text::lemma_trim_start(line@);
    }
    let p = piece(&v, 0, v.len() - t.len());
    assert(p@ == indent_of(line@));
    string_of(&p)
}

fn text_with_lines(lines: &Vec<String>, content: &str) -> (r: String)
    ensures
        r@ == with_lines(crate::text::texts(lines@), content@),
{
    proof {
        reveal_strlit("\n");
        assert("\n"@ =~= seq!['\n']);
    }
    let mut out = joined(lines, "\n");
    let v = chars_of(content);
    if v.len() > 0 && v[v.len() - 1] == '\n' {
        out.append("\n");
    }
    assert(out@ == with_lines(crate::text::texts(lines@), content@));
    out
}

// ---------------------------------------------------------------------------
// The face icon
// ---------------------------------------------------------------------------

/// The placeholder line with the face icon, and the fingerprint icon where it
/// had one.
pub open spec fn with_face(line: Seq<char>) -> Seq<char> {
    indent_of(line) + "placeholder_text = "@ + if line_holds(line, FP_ICON@) {
        "<span> Enter Password "@ + FACE_ICON@ + " "@ + FP_ICON@ + " </span>"@
    } else {
        "<span> Enter Password "@ + FACE_ICON@ + " </span>"@
    }
}

/// The placeholder line without the face icon, and with the fingerprint icon
/// where it had one.
pub open spec fn without_face(line: Seq<char>) -> Seq<char> {
    indent_of(line) + "placeholder_text = "@ + if line_holds(line, FP_ICON@) {
        "<span> Enter Password "@ + FP_ICON@ + " </span>"@
    } else {
        "Enter Password"@
    }
}

/// Where the first placeholder line stands; the number of lines if there is
/// none.
pub open spec fn first_placeholder(lines: Seq<Seq<char>>) -> nat
    decreases lines.len(),
{
    if lines.len() == 0 || sets(lines[0], "placeholder_text"@) {
        0
    } else {
        1 + first_placeholder(lines.skip(1))
    }
}

/// Whether there is a placeholder line, and the first has the face icon.
pub open spec fn shows_face(lines: Seq<Seq<char>>) -> bool {
    first_placeholder(lines) < lines.len() && line_holds(
        lines[first_placeholder(lines) as int],
        FACE_ICON@,
    )
}

/// Whether there is a placeholder line, and the first lacks the face icon.
pub open spec fn lacks_face(lines: Seq<Seq<char>>) -> bool {
    first_placeholder(lines) < lines.len() && !line_holds(
        lines[first_placeholder(lines) as int],
        FACE_ICON@,
    )
}

/// The lines with the face icon on the first placeholder line.
pub open spec fn face_added(lines: Seq<Seq<char>>) -> Seq<Seq<char>> {
    if lacks_face(lines) {
        let k = first_placeholder(lines) as int;
        lines.update(k, with_face(lines[k]))
    } else {
        lines
    }
}

/// A line without the face icon, where it is a placeholder line that has it.
pub open spec fn face_removed_line(line: Seq<char>) -> Seq<char> {
    if sets(line, "placeholder_text"@) && line_holds(line, FACE_ICON@) {
        without_face(line)
    } else {
        line
    }
}

/// Whether some placeholder line has the face icon.
pub open spec fn any_face(lines: Seq<Seq<char>>) -> bool {
    exists|i: int|
        0 <= i < lines.len() && sets(#[trigger] lines[i], "placeholder_text"@) && line_holds(
            lines[i],
            FACE_ICON@,
        )
}

fn face_line(line: &str) -> (r: String)
    ensures
        r@ == with_face(line@),
{
    let mut out = indent(line);
    out.append("placeholder_text = ");
    let mut value = String::from_str("<span> Enter Password ");
    value.append(FACE_ICON);
    if has_text(line, FP_ICON) {
        value.append(" ");
        value.append(FP_ICON);
    }
    value.append(" </span>");
    out.append(value.as_str());
    out
}

fn faceless_line(line: &str) -> (r: String)
    ensures
        r@ == without_face(line@),
{
    let mut out = indent(line);
    out.append("placeholder_text = ");
    let mut value = String::new();
    if has_text(line, FP_ICON) {
        value = String::from_str("<span> Enter Password ");
        value.append(FP_ICON);
        value.append(" </span>");
    } else {
        value = String::from_str("Enter Password");
    }
    out.append(value.as_str());
    out
}

/// The configuration with the face icon on its first placeholder line; whether
/// that changed a line; and whether the icon was there already.
pub fn add_face_icon(input: &str) -> (r: (String, bool, bool))
    ensures
        r.0@ == with_lines(face_added(crate::text::lines(input@)), input@),
        r.1 == lacks_face(crate::text::lines(input@)),
        r.2 == shows_face(crate::text::lines(input@)),
{
    let mut lines = lines_of(input);
    let ghost all = crate::text::lines(input@);
    let mut k: usize = 0;
    assert(all.skip(0) == all);
    while k < lines.len() && !sets_key(lines[k].as_str(), "placeholder_text")
        invariant
            k <= lines.len(),
            crate::text::texts(lines@) == all,
            first_placeholder(all) == k + first_placeholder(all.skip(k as int)),
        decreases lines.len() - k,
    {
        assert(all.skip(k as int)[0] == lines[k as int]@);
        assert(all.skip(k as int).skip(1) == all.skip(k as int + 1));
        k += 1;
    }
    let mut changed = false;
    let mut already = false;
    if k < lines.len() {
        assert(all.skip(k as int)[0] == lines[k as int]@);
        assert(first_placeholder(all) == k);
        assert(all[k as int] == lines[k as int]@);
        if has_text(lines[k].as_str(), FACE_ICON) {
            already = true;
        } else {
            let line = face_line(lines[k].as_str());
            lines.set(k, line);
            assert(crate::text::texts(lines@) == all.update(k as int, line@));
            changed = true;
        }
    }
    (text_with_lines(&lines, input), changed, already)
}

/// The configuration without the face icon on any placeholder line, and
/// whether that changed a line.
pub fn remove_face_icon(input: &str) -> (r: (String, bool))
    ensures
        r.0@ == with_lines(
            crate::text::lines(input@).map_values(|l: Seq<char>| face_removed_line(l)),
            input@,
        ),
        r.1 == any_face(crate::text::lines(input@)),
{
    let lines = lines_of(input);
    let ghost all = crate::text::lines(input@);
    let ghost wanted = all.map_values(|l: Seq<char>| face_removed_line(l));
    let mut out: Vec<String> = Vec::new();
    let mut changed = false;
    let mut i: usize = 0;
    while i < lines.len()
        invariant
            i <= lines.len(),
            crate::text::texts(lines@) == all,
            wanted == all.map_values(|l: Seq<char>| face_removed_line(l)),
            crate::text::texts(out@) == wanted.take(i as int),
            changed == any_face(all.take(i as int)),
        decreases lines.len() - i,
    {
        let ghost before = crate::text::texts(out@);
        assert(all[i as int] == lines[i as int]@);
        let line = lines[i].as_str();
        let hit = sets_key(line, "placeholder_text") && has_text(line, FACE_ICON);
        proof {
            let now = all.take(i as int + 1);
            let then_ = all.take(i as int);
            assert(forall|k: int| 0 <= k < i ==> #[trigger] now[k] == then_[k]);
            assert(now[i as int] == all[i as int]);
            if any_face(then_) {
                let w = choose|w: int|
                    0 <= w < then_.len() && sets(#[trigger] then_[w], "placeholder_text"@)
                        && line_holds(then_[w], FACE_ICON@);
                assert(now[w] == then_[w]);
            }
            if any_face(now) && !hit {
                let w = choose|w: int|
                    0 <= w < now.len() && sets(#[trigger] now[w], "placeholder_text"@)
                        && line_holds(now[w], FACE_ICON@);
                assert(w < i);
                assert(then_[w] == now[w]);
            }
        }
        let next = if hit {
            changed = true;
            faceless_line(line)
        } else {
            lines[i].clone()
        };
        out.push(next);
        assert(crate::text::texts(out@) == before.push(next@));
        i += 1;
    }
    assert(all.take(lines.len() as int) == all);
    assert(wanted.take(lines.len() as int) == wanted);
    (text_with_lines(&out, input), changed)
}

/// The placeholder text, where the configuration has one.
pub fn extract_placeholder_text(input: &str) -> (r: Option<String>)
    ensures
        match r {
            Some(v) => first_value(crate::text::lines(input@), "placeholder_text"@) == Some(v@),
            None => first_value(crate::text::lines(input@), "placeholder_text"@) is None,
        },
{
    first_value_of(input, "placeholder_text")
}

fn first_value_of(input: &str, key: &str) -> (r: Option<String>)
    ensures
        match r {
            Some(v) => first_value(crate::text::lines(input@), key@) == Some(v@),
            None => first_value(crate::text::lines(input@), key@) is None,
        },
{
    let lines = lines_of(input);
    let ghost all = crate::text::lines(input@);
    let mut i: usize = 0;
    assert(all.skip(0) == all);
    while i < lines.len()
        invariant
            i <= lines.len(),
            crate::text::texts(lines@) == all,
            all == crate::text::lines(input@),
            first_value(all, key@) == first_value(all.skip(i as int), key@),
        decreases lines.len() - i,
    {
        assert(all.skip(i as int)[0] == lines[i as int]@);
        assert(all.skip(i as int).skip(1) == all.skip(i as int + 1));
        match value_of(lines[i].as_str(), key) {
            Some(v) => {
                return Some(v);
            },
            None => {},
        }
        i += 1;
    }
    None
}

// ---------------------------------------------------------------------------
// ignore_empty_input
// ---------------------------------------------------------------------------

fn yes(value: &str) -> (r: bool)
    ensures
        r == is_yes(value@),
{
    same(value, "true") || same(value, "1") || same(value, "yes")
}

fn no(value: &str) -> (r: bool)
    ensures
        r == is_no(value@),
{
    same(value, "false") || same(value, "0") || same(value, "no")
}

/// What `ignore_empty_input` is set to.
pub fn extract_ignore_empty_input(input: &str) -> (r: Option<bool>)
    ensures
        r == ignore_empty(input@),
{
    match first_value_of(input, "ignore_empty_input") {
        Some(v) => if yes(v.as_str()) {
            Some(true)
        } else if no(v.as_str()) {
            Some(false)
        } else {
            None
        },
        None => None,
    }
}

/// `true` or `false`.
pub open spec fn truth_word(value: bool) -> Seq<char> {
    if value {
        "true"@
    } else {
        "false"@
    }
}

/// A line with its `ignore_empty_input` set to a value, where it sets it.
pub open spec fn ignore_line(line: Seq<char>, value: bool) -> Seq<char> {
    if sets(line, "ignore_empty_input"@) {
        indent_of(line) + "ignore_empty_input = "@ + truth_word(value)
    } else {
        line
    }
}

/// Whether a line opens the general block.
pub open spec fn opens_general(line: Seq<char>) -> bool {
    let t = crate::text::trim(line);
    crate::text::has_prefix(t, "general {"@) || t == "general{"@
}

/// Where the general block opens; the number of lines if it does not.
pub open spec fn general_header(lines: Seq<Seq<char>>) -> nat
    decreases lines.len(),
{
    if lines.len() == 0 || opens_general(lines[0]) {
        0
    } else {
        1 + general_header(lines.skip(1))
    }
}

/// Where the block that is `depth` blocks deep at line `i` closes.
pub open spec fn closing_line(lines: Seq<Seq<char>>, i: int, depth: nat) -> Option<int>
    decreases lines.len() - i,
{
    if i < 0 || i >= lines.len() {
        None
    } else {
        let t = crate::text::trim(lines[i]);
        if crate::text::has_prefix(t, "}"@) {
            if depth <= 1 {
                Some(i)
            } else {
                closing_line(lines, i + 1, (depth - 1) as nat)
            }
        } else if crate::text::has_suffix(t, "{"@) {
            closing_line(lines, i + 1, depth + 1)
        } else {
            closing_line(lines, i + 1, depth)
        }
    }
}

/// The line that is put into a general block without the setting.
pub open spec fn ignore_setting(value: bool) -> Seq<char> {
    "    ignore_empty_input = "@ + truth_word(value)
}

/// The configuration with the setting as the last line of its general block,
/// where it has one that closes.
pub open spec fn injected(content: Seq<char>, value: bool) -> Option<Seq<char>> {
    let lines = crate::text::lines(content);
    let header = general_header(lines);
    if header < lines.len() {
        match closing_line(lines, header as int + 1, 1) {
            Some(at) => Some(with_lines(lines.insert(at, ignore_setting(value)), content)),
            None => None,
        }
    } else {
        None
    }
}

/// The configuration with `ignore_empty_input` set. Nothing changes where it
/// already is; a setting that is there is rewritten; else one is put into the
/// general block, or a general block in front.
pub open spec fn ignore_set(content: Seq<char>, value: bool) -> Seq<char> {
    if ignore_empty(content) == Some(value) {
        content
    } else if ignore_empty(content) is Some {
        with_lines(
            crate::text::lines(content).map_values(|l: Seq<char>| ignore_line(l, value)),
            content,
        )
    } else {
        match injected(content, value) {
            Some(t) => t,
            None => "general {\n"@ + ignore_setting(value) + "\n"@ + "}\n\n"@ + content,
        }
    }
}

fn truth(value: bool) -> (r: &'static str)
    ensures
        r@ == truth_word(value),
{
    if value {
        "true"
    } else {
        "false"
    }
}

/// The configuration with the setting as the last line of its general block,
/// where it has one that closes.
pub fn inject_into_general_block(input: &str, value: bool) -> (r: Option<String>)
    ensures
        match r {
            Some(t) => injected(input@, value) == Some(t@),
            None => injected(input@, value) is None,
        },
{
    let mut lines = lines_of(input);
    let ghost all = crate::text::lines(input@);
    let mut header: usize = 0;
    assert(all.skip(0) == all);
    while header < lines.len() && !is_general_header(lines[header].as_str())
        invariant
            header <= lines.len(),
            crate::text::texts(lines@) == all,
            general_header(all) == header + general_header(all.skip(header as int)),
        decreases lines.len() - header,
    {
        assert(all.skip(header as int)[0] == lines[header as int]@);
        assert(all.skip(header as int).skip(1) == all.skip(header as int + 1));
        header += 1;
    }
    if header >= lines.len() {
        return None;
    }
    assert(all.skip(header as int)[0] == lines[header as int]@);
    assert(general_header(all) == header);
    let mut depth: usize = 1;
    let mut i: usize = header + 1;
    let mut close: Option<usize> = None;
    while i < lines.len() && close.is_none()
        invariant
            header < lines.len(),
            header + 1 <= i <= lines.len(),
            1 <= depth <= i,
            crate::text::texts(lines@) == all,
            match close {
                Some(c) => c < lines.len() && closing_line(all, header as int + 1, 1) == Some(
                    c as int,
                ),
                None => closing_line(all, header as int + 1, 1) == closing_line(
                    all,
                    i as int,
                    depth as nat,
                ),
            },
        decreases lines.len() - i,
    {
        assert(all[i as int] == lines[i as int]@);
        let t = trimmed(lines[i].as_str());
        if starts_with(t.as_str(), "}") {
            if depth == 1 {
                close = Some(i);
            } else {
                depth -= 1;
            }
        } else if crate::text::ends_with(t.as_str(), "{") {
            depth += 1;
        }
        i += 1;
    }
    match close {
        Some(at) => {
            let mut line = String::from_str("    ignore_empty_input = ");
            line.append(truth(value));
            lines.insert(at, line);
            assert(crate::text::texts(lines@) == all.insert(at as int, line@));
            Some(text_with_lines(&lines, input))
        },
        None => None,
    }
}

fn is_general_header(line: &str) -> (r: bool)
    ensures
        r == opens_general(line@),
{
    let t = trimmed(line);
    starts_with(t.as_str(), "general {") || same(t.as_str(), "general{")
}

/// The configuration with `ignore_empty_input` set, and whether that changed
/// it.
pub fn set_ignore_empty_input(input: &str, value: bool) -> (r: (String, bool))
    ensures
        r.0@ == ignore_set(input@, value),
        r.1 == (ignore_empty(input@) != Some(value)),
{
    let current = extract_ignore_empty_input(input);
    match current {
        Some(now) => {
            if now == value {
                return (String::from_str(input), false);
            }
            let lines = lines_of(input);
            let ghost all = crate::text::lines(input@);
            let ghost wanted = all.map_values(|l: Seq<char>| ignore_line(l, value));
            let mut out: Vec<String> = Vec::new();
            let mut i: usize = 0;
            while i < lines.len()
                invariant
                    i <= lines.len(),
                    crate::text::texts(lines@) == all,
                    wanted == all.map_values(|l: Seq<char>| ignore_line(l, value)),
                    crate::text::texts(out@) == wanted.take(i as int),
                decreases lines.len() - i,
            {
                let ghost before = crate::text::texts(out@);
                assert(all[i as int] == lines[i as int]@);
                let line = lines[i].as_str();
                let next = if sets_key(line, "ignore_empty_input") {
                    let mut out = indent(line);
                    out.append("ignore_empty_input = ");
                    out.append(truth(value));
                    out
                } else {
                    lines[i].clone()
                };
                out.push(next);
                assert(crate::text::texts(out@) == before.push(next@));
                i += 1;
            }
            assert(wanted.take(lines.len() as int) == wanted);
            (text_with_lines(&out, input), true)
        },
        None => match inject_into_general_block(input, value) {
            Some(t) => (t, true),
            None => {
                let mut out = String::from_str("general {\n");
                let mut line = String::from_str("    ignore_empty_input = ");
                line.append(truth(value));
                out.append(line.as_str());
                out.append("\n");
                out.append("}\n\n");
                out.append(input);
                (out, true)
            },
        },
    }
}

// ---------------------------------------------------------------------------
// Fingerprint
// ---------------------------------------------------------------------------

/// Whether a line switches fingerprint recognition on, and is no comment.
pub open spec fn switches_fingerprint_on(line: Seq<char>) -> bool {
    &&& !crate::text::has_prefix(crate::text::trim_start(line), "#"@)
    &&& value_in(line, "fingerprint:enabled"@) matches Some(v)
    &&& is_yes(v)
}

/// Whether some line switches fingerprint recognition on.
pub fn conf_has_fingerprint_enabled(input: &str) -> (r: bool)
    ensures
        r == exists|i: int|
            0 <= i < crate::text::lines(input@).len() && switches_fingerprint_on(
                #[trigger] crate::text::lines(input@)[i],
            ),
{
    let lines = lines_of(input);
    let ghost all = crate::text::lines(input@);
    let mut i: usize = 0;
    while i < lines.len()
        invariant
            i <= lines.len(),
            crate::text::texts(lines@) == all,
            all == crate::text::lines(input@),
            forall|k: int| 0 <= k < i ==> !switches_fingerprint_on(#[trigger] all[k]),
        decreases lines.len() - i,
    {
        assert(all[i as int] == lines[i as int]@);
        let line = lines[i].as_str();
        let t = string_of(&trim_start_chars(&chars_of(line)));
        if !starts_with(t.as_str(), "#") {
            if let Some(v) = value_of(line, "fingerprint:enabled") {
                if yes(v.as_str()) {
                    return true;
                }
            }
        }
        i += 1;
    }
    false
}

/// Whether some line of a service file that is no comment holds a text.
pub open spec fn mentions(content: Seq<char>, needle: Seq<char>) -> bool {
    exists|i: int|
        0 <= i < crate::text::lines(content).len() && !crate::text::has_prefix(
            crate::text::trim_start(#[trigger] crate::text::lines(content)[i]),
            "#"@,
        ) && crate::text::contains(crate::text::lines(content)[i], needle)
}

/// Whether some line of a service file that is no comment holds a text. A file
/// that could not be read holds nothing.
pub fn pam_contains(content: &Option<String>, needle: &str) -> (r: bool)
    ensures
        r == match *content {
            Some(c) => mentions(c@, needle@),
            None => false,
        },
{
    match content {
        None => false,
        Some(file) => {
            let lines = lines_of(file.as_str());
            let ghost all = crate::text::lines(file@);
            let mut i: usize = 0;
            while i < lines.len()
                invariant
                    i <= lines.len(),
                    crate::text::texts(lines@) == all,
                    all == crate::text::lines(file@),
                    *content == Some(*file),
                    forall|k: int|
                        0 <= k < i ==> crate::text::has_prefix(
                            crate::text::trim_start(#[trigger] all[k]),
                            "#"@,
                        ) || !crate::text::contains(all[k], needle@),
                decreases lines.len() - i,
            {
                assert(all[i as int] == lines[i as int]@);
                let t = string_of(&trim_start_chars(&chars_of(lines[i].as_str())));
                if !starts_with(t.as_str(), "#") && holds(lines[i].as_str(), needle) {
                    return true;
                }
                i += 1;
            }
            false
        },
    }
}

/// Whether the service file authenticates by fingerprint.
pub fn pam_has_fingerprint(content: &Option<String>) -> (r: bool)
    ensures
        r == match *content {
            Some(c) => mentions(c@, "pam_fprintd.so"@),
            None => false,
        },
{
    pam_contains(content, "pam_fprintd.so")
}

// ---------------------------------------------------------------------------
// The commands
// ---------------------------------------------------------------------------

/// What a command does to the configuration: whether it is copied first, what
/// is written, and what is said afterwards.
#[derive(Debug, Clone, PartialEq, Eq)]
pub struct Edit {
    pub back_up: bool,
    pub write: Option<String>,
    pub lines: Vec<String>,
}

/// The path of the copy that is taken before the first edit.
pub fn backup_path(path: &str) -> (r: String)
    ensures
        r@ == path@ + BACKUP_SUFFIX@,
{
    let mut out = String::from_str(path);
    out.append(BACKUP_SUFFIX);
    out
}

/// The text with the face icon added.
pub open spec fn with_icon(content: Seq<char>) -> Seq<char> {
    with_lines(face_added(crate::text::lines(content)), content)
}

/// The text with the face icon removed.
pub open spec fn without_icon(content: Seq<char>) -> Seq<char> {
    with_lines(
        crate::text::lines(content).map_values(|l: Seq<char>| face_removed_line(l)),
        content,
    )
}

/// The configuration once the integration is enabled.
pub open spec fn enabled(content: Seq<char>) -> Seq<char> {
    ignore_set(with_icon(content), false)
}

/// Whether enabling changes anything.
pub open spec fn enable_changes(content: Seq<char>) -> bool {
    !shows_face(crate::text::lines(content)) || ignore_empty(with_icon(content)) != Some(false)
}

/// What enabling says.
pub open spec fn enable_says(content: Seq<char>) -> Seq<Seq<char>> {
    let lines = crate::text::lines(content);
    let general = if ignore_empty(with_icon(content)) != Some(false) {
        "Set general.ignore_empty_input = false."@
    } else {
        "general.ignore_empty_input already false."@
    };
    if !enable_changes(content) {
        seq!["Face icon already present and ignore_empty_input already false."@]
    } else if shows_face(lines) {
        seq!["Face icon already present in placeholder_text."@, general]
    } else if lacks_face(lines) {
        seq!["Added face icon to placeholder_text."@, general]
    } else {
        seq![general]
    }
}

/// `hyprlock enable`: the face icon on the placeholder, and empty input
/// submitted. A first edit is preceded by a copy.
pub fn enable(original: &str, backup_exists: bool) -> (r: Edit)
    ensures
        r.back_up == !backup_exists,
        match r.write {
            Some(t) => enable_changes(original@) && t@ == enabled(original@),
            None => !enable_changes(original@),
        },
        crate::text::texts(r.lines@) == enable_says(original@),
{
    let (after_placeholder, placeholder_changed, already_face) = add_face_icon(original);
    let (after_general, general_changed) = set_ignore_empty_input(
        after_placeholder.as_str(),
        false,
    );
    let mut lines: Vec<String> = Vec::new();
    if !placeholder_changed && !general_changed && already_face {
        lines.push(
            String::from_str("Face icon already present and ignore_empty_input already false."),
        );
        assert(crate::text::texts(lines@) == enable_says(original@));
        return Edit { back_up: !backup_exists, write: None, lines };
    }
    if already_face {
        lines.push(String::from_str("Face icon already present in placeholder_text."));
    } else if placeholder_changed {
        lines.push(String::from_str("Added face icon to placeholder_text."));
    }
    if general_changed {
        lines.push(String::from_str("Set general.ignore_empty_input = false."));
    } else {
        lines.push(String::from_str("general.ignore_empty_input already false."));
    }
    assert(crate::text::texts(lines@) == enable_says(original@));
    Edit { back_up: !backup_exists, write: Some(after_general), lines }
}

/// Whether the machine also recognises fingerprints.
pub open spec fn fingerprint_coexists(content: Seq<char>, pam: Option<Seq<char>>) -> bool {
    ||| pam matches Some(c) && mentions(c, "pam_fprintd.so"@)
    ||| exists|i: int|
        0 <= i < crate::text::lines(content).len() && switches_fingerprint_on(
            #[trigger] crate::text::lines(content)[i],
        )
}

/// Whether disabling restores `ignore_empty_input`: only where no fingerprint
/// depends on it.
pub open spec fn disable_restores(content: Seq<char>, pam: Option<Seq<char>>) -> bool {
    !fingerprint_coexists(without_icon(content), pam) && ignore_empty(without_icon(content))
        != Some(true)
}

/// The configuration once the integration is disabled.
pub open spec fn disabled(content: Seq<char>, pam: Option<Seq<char>>) -> Seq<char> {
    if fingerprint_coexists(without_icon(content), pam) {
        without_icon(content)
    } else {
        ignore_set(without_icon(content), true)
    }
}

/// Whether disabling changes anything.
pub open spec fn disable_changes(content: Seq<char>, pam: Option<Seq<char>>) -> bool {
    any_face(crate::text::lines(content)) || disable_restores(content, pam)
}

/// What disabling says.
pub open spec fn disable_says(
    path: Seq<char>,
    content: Seq<char>,
    pam: Option<Seq<char>>,
    backup_exists: bool,
) -> Seq<Seq<char>> {
    if !disable_changes(content, pam) {
        seq!["Face icon not present and ignore_empty_input unchanged. Nothing to do."@]
    } else {
        let icon = if any_face(crate::text::lines(content)) {
            seq!["Removed face icon from placeholder_text."@]
        } else {
            Seq::empty()
        };
        let general = if disable_restores(content, pam) {
            seq!["Restored general.ignore_empty_input = true."@]
        } else if fingerprint_coexists(without_icon(content), pam) {
            seq![
                "Fingerprint integration detected — leaving ignore_empty_input alone so fingerprint still works."@,
            ]
        } else {
            Seq::empty()
        };
        let backup = if backup_exists {
            seq![
                "Backup left in place at "@ + (path + BACKUP_SUFFIX@)
                    + " (delete manually if no longer needed)."@,
            ]
        } else {
            Seq::empty()
        };
        icon + general + backup
    }
}

/// `hyprlock disable`: no face icon, and `ignore_empty_input` restored unless a
/// fingerprint needs it. `pam` is the content of the service file, where it can
/// be read.
pub fn disable(path: &str, original: &str, pam: &Option<String>, backup_exists: bool) -> (r: Edit)
    ensures
        !r.back_up,
        match r.write {
            Some(t) => {
                &&& disable_changes(original@, crate::text::opt_text(*pam))
                &&& t@ == disabled(original@, crate::text::opt_text(*pam))
            },
            None => !disable_changes(original@, crate::text::opt_text(*pam)),
        },
        crate::text::texts(r.lines@) == disable_says(
            path@,
            original@,
            crate::text::opt_text(*pam),
            backup_exists,
        ),
{
    let (after_placeholder, placeholder_changed) = remove_face_icon(original);
    let fingerprint_present = pam_has_fingerprint(pam) || conf_has_fingerprint_enabled(
        after_placeholder.as_str(),
    );
    let ghost coexists = fingerprint_coexists(
        without_icon(original@),
        crate::text::opt_text(*pam),
    );
    assert(fingerprint_present == coexists);
    let (final_content, general_changed) = if fingerprint_present {
        (after_placeholder, false)
    } else {
        set_ignore_empty_input(after_placeholder.as_str(), true)
    };
    let mut lines: Vec<String> = Vec::new();
    if !placeholder_changed && !general_changed {
        lines.push(
            String::from_str(
                "Face icon not present and ignore_empty_input unchanged. Nothing to do.",
            ),
        );
        assert(crate::text::texts(lines@) == disable_says(
            path@,
            original@,
            crate::text::opt_text(*pam),
            backup_exists,
        ));
        return Edit { back_up: false, write: None, lines };
    }
    if placeholder_changed {
        lines.push(String::from_str("Removed face icon from placeholder_text."));
    }
    if general_changed {
        lines.push(String::from_str("Restored general.ignore_empty_input = true."));
    } else if fingerprint_present {
        lines.push(
            String::from_str(
                "Fingerprint integration detected — leaving ignore_empty_input alone so fingerprint still works.",
            ),
        );
    }
    if backup_exists {
        let mut line = String::from_str("Backup left in place at ");
        line.append(backup_path(path).as_str());
        line.append(" (delete manually if no longer needed).");
        lines.push(line);
    }
    assert(crate::text::texts(lines@) == disable_says(
        path@,
        original@,
        crate::text::opt_text(*pam),
        backup_exists,
    ));
    Edit { back_up: false, write: Some(final_content), lines }
}

/// What `hyprlock status` says.
pub open spec fn status_says(
    path: Seq<char>,
    content: Seq<char>,
    pam: Option<Seq<char>>,
    backup_exists: bool,
) -> Seq<Seq<char>> {
    let placeholder = first_value(crate::text::lines(content), "placeholder_text"@);
    let face = placeholder matches Some(p) && crate::text::contains(p, FACE_ICON@);
    let fp = placeholder matches Some(p) && crate::text::contains(p, FP_ICON@);
    let listed = seq![
        "hyprlock.conf:        "@ + path,
        "placeholder_text:     "@ + match placeholder {
            Some(p) => p,
            None => "<missing>"@,
        },
        "  face icon ("@ + FACE_ICON@ + "): "@ + crate::text::yes_no(face),
        "  fingerprint icon ("@ + FP_ICON@ + "): "@ + crate::text::yes_no(fp),
        "ignore_empty_input:   "@ + match ignore_empty(content) {
            Some(true) => "true"@,
            Some(false) => "false"@,
            None => "<not set>"@,
        },
        "PAM /etc/pam.d/hyprlock:"@,
        "  pam_facelock.so:    "@ + crate::text::yes_no(
            pam matches Some(c) && mentions(c, "pam_facelock.so"@),
        ),
        "  pam_fprintd.so:     "@ + crate::text::yes_no(pam matches Some(c) && mentions(c, "pam_fprintd.so"@)),
    ];
    if backup_exists {
        listed.push("backup file:          "@ + (path + BACKUP_SUFFIX@))
    } else {
        listed
    }
}

fn labelled(label: &str, value: &str) -> (r: String)
    ensures
        r@ == label@ + value@,
{
    let mut out = String::from_str(label);
    out.append(value);
    out
}

/// `hyprlock status`: the state of the integration, line by line.
pub fn status(path: &str, content: &str, pam: &Option<String>, backup_exists: bool) -> (r: Vec<
    String,
>)
    ensures
        crate::text::texts(r@) == status_says(
            path@,
            content@,
            crate::text::opt_text(*pam),
            backup_exists,
        ),
{
    let placeholder = extract_placeholder_text(content);
    let face = match &placeholder {
        Some(p) => holds(p.as_str(), FACE_ICON),
        None => false,
    };
    let fp = match &placeholder {
        Some(p) => holds(p.as_str(), FP_ICON),
        None => false,
    };
    let ignored = match extract_ignore_empty_input(content) {
        Some(b) => if b {
            "true"
        } else {
            "false"
        },
        None => "<not set>",
    };
    let mut lines: Vec<String> = Vec::new();
    lines.push(labelled("hyprlock.conf:        ", path));
    lines.push(
        labelled(
            "placeholder_text:     ",
            match &placeholder {
                Some(p) => p.as_str(),
                None => "<missing>",
            },
        ),
    );
    let mut line = String::from_str("  face icon (");
    line.append(FACE_ICON);
    line.append("): ");
    line.append(yes_or_no(face));
    lines.push(line);
    let mut line = String::from_str("  fingerprint icon (");
    line.append(FP_ICON);
    line.append("): ");
    line.append(yes_or_no(fp));
    lines.push(line);
    lines.push(labelled("ignore_empty_input:   ", ignored));
    lines.push(String::from_str("PAM /etc/pam.d/hyprlock:"));
    lines.push(
        labelled("  pam_facelock.so:    ", yes_or_no(pam_contains(pam, "pam_facelock.so"))),
    );
    lines.push(labelled("  pam_fprintd.so:     ", yes_or_no(pam_contains(pam, "pam_fprintd.so"))));
    if backup_exists {
        lines.push(labelled("backup file:          ", backup_path(path).as_str()));
    }
    assert(crate::text::texts(lines@) =~= status_says(
        path@,
        content@,
        crate::text::opt_text(*pam),
        backup_exists,
    ));
    lines
}

/// Where the configuration is: under `XDG_CONFIG_HOME` if it is set to
/// something, else under `.config` in the home directory.
pub open spec fn conf_path(xdg: Option<Seq<char>>, home: Option<Seq<char>>) -> Option<Seq<char>> {
    let base = match xdg {
        Some(x) if x.len() > 0 => Some(x),
        _ => match home {
            Some(h) => Some(crate::paths::join_path(h, ".config"@)),
            None => None,
        },
    };
    match base {
        Some(b) => Some(
            crate::paths::join_path(crate::paths::join_path(b, "hypr"@), "hyprlock.conf"@),
        ),
        None => None,
    }
}

/// Where the configuration is, given the two environment variables.
pub fn hyprlock_conf_path(xdg: &Option<String>, home: &Option<String>) -> (r: Result<
    String,
    &'static str,
>)
    ensures
        match r {
            Ok(p) => conf_path(
                crate::text::opt_text(*xdg),
                crate::text::opt_text(*home),
            ) == Some(p@),
            Err(m) => {
                &&& conf_path(
                    crate::text::opt_text(*xdg),
                    crate::text::opt_text(*home),
                ) is None
                &&& m@ == "could not determine XDG_CONFIG_HOME or HOME"@
            },
        },
{
    let mut base: Option<String> = None;
    if let Some(x) = xdg {
        if !x.as_str().is_empty() {
            base = Some(x.clone());
        }
    }
    if base.is_none() {
        if let Some(h) = home {
            base = Some(joined_path(h.as_str(), ".config"));
        }
    }
    match base {
        Some(b) => {
            let dir = joined_path(b.as_str(), "hypr");
            Ok(joined_path(dir.as_str(), "hyprlock.conf"))
        },
        None => Err("could not determine XDG_CONFIG_HOME or HOME"),
    }
}

/// Why there is no configuration to edit, if there is none.
pub open spec fn conf_missing(path: Seq<char>, there: bool) -> Option<Seq<char>> {
    if there {
        None
    } else {
        Some(
            "hyprlock config not found at "@ + path
                + ".\nInstall hyprlock and create the config first."@,
        )
    }
}

/// Why the command refuses to run, if it does.
pub open spec fn root_refusal(is_root: bool) -> Option<Seq<char>> {
    if is_root {
        Some(
            "facelock hyprlock must run as your normal user (it edits files under $HOME).\nIf invoked via sudo, re-run without sudo."@,
        )
    } else {
        None
    }
}

/// The configuration, if it exists there.
pub fn locate_hyprlock_conf(path: String, there: bool) -> (r: Result<String, String>)
    ensures
        match r {
            Ok(p) => conf_missing(path@, there) is None && p@ == path@,
            Err(m) => conf_missing(path@, there) == Some(m@),
        },
{
    if there {
        Ok(path)
    } else {
        let mut m = String::from_str("hyprlock config not found at ");
        m.append(path.as_str());
        m.append(".\nInstall hyprlock and create the config first.");
        Err(m)
    }
}

/// The command edits files of a user, so it refuses to run as root.
pub fn refuse_root(is_root: bool) -> (r: Result<(), &'static str>)
    ensures
        match r {
            Ok(_) => root_refusal(is_root) is None,
            Err(m) => root_refusal(is_root) == Some(m@),
        },
{
    if is_root {
        Err(
            "facelock hyprlock must run as your normal user (it edits files under $HOME).\nIf invoked via sudo, re-run without sudo.",
        )
    } else {
        Ok(())
    }
}

// ---------------------------------------------------------------------------
// Laws
// ---------------------------------------------------------------------------

/// A line that sets a key has a value for it, and the other way round.
proof fn lemma_sets_is_value(line: Seq<char>, key: Seq<char>)
    requires
        !key.contains('='),
    ensures
        sets(line, key) <==> value_in(line, key) is Some,
{
    reveal_strlit("=");
    assert("="@ =~= seq!['=']);
    let t = crate::text::trim_start(line);
    crate::text::lemma_contains_char(t, '=');
    if crate::text::has_prefix(t, key) {
        let rest = t.skip(key.len() as int);
        crate::text::lemma_contains_char(rest, '=');
        if t.contains('=') {
            let k = choose|k: int| 0 <= k < t.len() && t[k] == '=';
            if k < key.len() {
                assert(t.take(key.len() as int)[k] == '=');
                assert(key.contains('='));
            } else {
                assert(rest[k - key.len()] == '=');
            }
        }
        if rest.contains('=') {
            let k = choose|k: int| 0 <= k < rest.len() && rest[k] == '=';
            assert(t[k + key.len()] == '=');
        }
    }
}

/// A carriage return at the end of a line is no part of the value it sets.
proof fn lemma_value_ignores_cr(line: Seq<char>, key: Seq<char>)
    requires
        !key.contains('\r'),
        line.len() > 0,
        line.last() == '\r',
    ensures
        value_in(line.drop_last(), key) == value_in(line, key),
    decreases line.len(),
{
    reveal_strlit("=");
    assert("="@ =~= seq!['=']);
    let short = line.drop_last();
    if crate::text::is_space(line[0]) {
        if line.len() > 1 {
            lemma_value_ignores_cr(line.skip(1), key);
            assert(line.skip(1).drop_last() == short.skip(1));
            assert(short[0] == line[0]);
        } else {
            assert(short == line.skip(1));
        }
    } else {
        assert(short[0] == line[0]);
        assert(crate::text::trim_start(line) == line);
        assert(crate::text::trim_start(short) == short);
        let n = key.len() as int;
        if crate::text::has_prefix(line, key) {
            if n == line.len() {
                assert(line.take(n)[n - 1] == key[n - 1]);
                assert(key[n - 1] == '\r');
                assert(key.contains('\r'));
            }
            assert(short.take(n) == line.take(n));
            let rest = line.skip(n);
            let cut = short.skip(n);
            assert(cut == rest.drop_last());
            crate::text::lemma_find(rest, seq!['=']);
            crate::text::lemma_find(cut, seq!['=']);
            match crate::text::find(rest, seq!['=']) {
                Some(i) => {
                    assert(rest.skip(i as int).take(1)[0] == '=');
                    assert(rest[i as int] == '=');
                    assert(i < cut.len());
                    assert(cut.skip(i as int).take(1) =~= seq!['=']);
                    match crate::text::find(cut, seq!['=']) {
                        Some(j) => {
                            assert(cut.skip(j as int).take(1)[0] == '=');
                            assert(rest[j as int] == '=');
                            if j < i {
                                assert(rest.skip(j as int).take(1) =~= seq!['=']);
                            }
                            assert(i == j);
                            let a = rest.skip(i as int + 1);
                            assert(cut.skip(i as int + 1) == a.drop_last());
                            crate::text::lemma_trim_ignores_last_space(a);
                        },
                        None => {
                            assert(crate::text::has_prefix(cut.skip(i as int), seq!['=']));
                        },
                    }
                },
                None => {
                    match crate::text::find(cut, seq!['=']) {
                        Some(j) => {
                            assert(cut.skip(j as int).take(1)[0] == '=');
                            assert(rest.skip(j as int).take(1) =~= seq!['=']);
                            assert(crate::text::has_prefix(rest.skip(j as int), seq!['=']));
                        },
                        None => {},
                    }
                },
            }
        } else if crate::text::has_prefix(short, key) {
            assert(line.take(n) == short.take(n));
        }
    }
}

proof fn lemma_value_of_stripped(line: Seq<char>, key: Seq<char>)
    requires
        !key.contains('\r'),
    ensures
        value_in(crate::text::strip_cr(line), key) == value_in(line, key),
{
    if line.len() > 0 && line.last() == '\r' {
        lemma_value_ignores_cr(line, key);
    }
}

/// An indented line that sets a key as this program writes it.
proof fn lemma_written_setting(line: Seq<char>, key: Seq<char>, value: Seq<char>)
    requires
        key.len() > 0,
        !crate::text::is_space(key[0]),
        !key.contains('='),
        value.len() > 0,
        !crate::text::is_space(value[0]),
        !crate::text::is_space(value.last()),
    ensures
        value_in(indent_of(line) + (key + " = "@ + value), key) == Some(value),
        crate::text::trim_start(indent_of(line) + (key + " = "@ + value)) == key + " = "@ + value,
{
    reveal_strlit("=");
    reveal_strlit(" = ");
    assert("="@ =~= seq!['=']);
    crate::text::lemma_trim_start(line);
    let t = key + " = "@ + value;
    assert(t[0] == key[0]);
    assert forall|k: int| 0 <= k < indent_of(line).len() implies crate::text::is_space(
        #[trigger] indent_of(line)[k],
    ) by {
        assert(indent_of(line)[k] == line[k]);
    }
    crate::text::lemma_trim_start_of_indented(indent_of(line), t);
    assert(t.take(key.len() as int) == key);
    let rest = t.skip(key.len() as int);
    assert(rest == " = "@ + value);
    crate::text::lemma_find(rest, seq!['=']);
    assert(rest[0] == ' ' && rest[1] == '=');
    assert(rest.skip(1).take(1) =~= seq!['=']);
    assert(crate::text::has_prefix(rest.skip(1), seq!['=']));
    assert(crate::text::find(rest, seq!['=']) == Some(1nat)) by {
        match crate::text::find(rest, seq!['=']) {
            Some(n) => {
                assert(rest.skip(n as int).take(1)[0] == '=');
                assert(rest[n as int] == '=');
                if n > 1 {
                    assert(!crate::text::has_prefix(rest.skip(1), seq!['=']));
                }
            },
            None => {},
        }
    }
    let after = rest.skip(2);
    assert(after == seq![' '] + value);
    crate::text::lemma_trim_start_of_indented(seq![' '], value);
    assert(crate::text::trim_start(after) == value);
    assert(crate::text::trim_end(value) == value);
}

proof fn lemma_first_value_at(lines: Seq<Seq<char>>, key: Seq<char>, k: int)
    requires
        0 <= k < lines.len(),
        forall|i: int| 0 <= i < k ==> value_in(#[trigger] lines[i], key) is None,
        value_in(lines[k], key) is Some,
    ensures
        first_value(lines, key) == value_in(lines[k], key),
    decreases lines.len(),
{
    if k > 0 {
        assert(value_in(lines[0], key) is None);
        let rest = lines.skip(1);
        assert forall|i: int| 0 <= i < k - 1 implies value_in(#[trigger] rest[i], key) is None by {
            assert(rest[i] == lines[i + 1]);
        }
        assert(rest[k - 1] == lines[k]);
        lemma_first_value_at(rest, key, k - 1);
    }
}

proof fn lemma_first_value(lines: Seq<Seq<char>>, key: Seq<char>) -> (k: int)
    ensures
        0 <= k <= lines.len(),
        forall|i: int| 0 <= i < k ==> value_in(#[trigger] lines[i], key) is None,
        k < lines.len() ==> value_in(lines[k], key) is Some && first_value(lines, key) == value_in(
            lines[k],
            key,
        ),
        k == lines.len() ==> first_value(lines, key) is None,
    decreases lines.len(),
{
    if lines.len() == 0 || value_in(lines[0], key) is Some {
        0
    } else {
        let rest = lines.skip(1);
        let k = lemma_first_value(rest, key);
        assert forall|i: int| 0 <= i < k + 1 implies value_in(#[trigger] lines[i], key) is None by {
            if i > 0 {
                assert(rest[i - 1] == lines[i]);
            }
        }
        if k < rest.len() {
            assert(lines[k + 1] == rest[k]);
        }
        k + 1
    }
}

proof fn lemma_ignore_words()
    ensures
        !"ignore_empty_input"@.contains('='),
        !"ignore_empty_input"@.contains('\r'),
        "ignore_empty_input"@.len() > 0,
        !crate::text::is_space("ignore_empty_input"@[0]),
        forall|v: bool| #[trigger]
            truth_word(v).len() > 0 && !crate::text::is_space(truth_word(v)[0])
                && !crate::text::is_space(truth_word(v).last()),
        is_yes(truth_word(true)),
        is_no(truth_word(false)),
        !is_yes(truth_word(false)),
        forall|v: bool, k: int|
            0 <= k < truth_word(v).len() ==> #[trigger] truth_word(v)[k] != '\n'
                && truth_word(v)[k] != '\r',
        forall|k: int|
            0 <= k < "ignore_empty_input = "@.len() ==> #[trigger] "ignore_empty_input = "@[k]
                != '\n',
        "ignore_empty_input = "@ == "ignore_empty_input"@ + " = "@,
        "    ignore_empty_input = "@ == "    "@ + "ignore_empty_input = "@,
        forall|k: int|
            0 <= k < "    "@.len() ==> crate::text::is_space(#[trigger] "    "@[k]) && "    "@[k]
                != '\n',
        "    "@.len() > 0,
{
    reveal_strlit("ignore_empty_input");
    reveal_strlit("ignore_empty_input = ");
    reveal_strlit("    ignore_empty_input = ");
    reveal_strlit("    ");
    reveal_strlit(" = ");
    reveal_strlit("true");
    reveal_strlit("false");
    reveal_strlit("1");
    reveal_strlit("yes");
    assert("false"@.len() == 5 && "true"@.len() == 4 && "1"@.len() == 1 && "yes"@.len() == 3);
    assert("ignore_empty_input = "@ =~= "ignore_empty_input"@ + " = "@);
    assert("    ignore_empty_input = "@ =~= "    "@ + "ignore_empty_input = "@);
}

proof fn lemma_ignore_setting(value: bool)
    ensures
        value_in(ignore_setting(value), "ignore_empty_input"@) == Some(truth_word(value)),
        crate::text::strip_cr(ignore_setting(value)) == ignore_setting(value),
        forall|k: int|
            0 <= k < ignore_setting(value).len() ==> #[trigger] ignore_setting(value)[k] != '\n',
{
    lemma_ignore_words();
    let key = "ignore_empty_input"@;
    let line = ignore_setting(value);
    let t = key + " = "@ + truth_word(value);
    assert(line == "    "@ + t);
    crate::text::lemma_trim_start_of_indented("    "@, t);
    assert(t[0] == key[0]);
    assert(crate::text::trim_start("    "@ + t) == t);
    assert("    "@ =~= "    "@ + Seq::<char>::empty());
    lemma_written_setting(Seq::empty(), key, truth_word(value));
    assert(indent_of(Seq::<char>::empty()) == Seq::<char>::empty());
    assert(Seq::<char>::empty() + t == t);
    assert(crate::text::trim_start(line) == crate::text::trim_start(t));
    assert(line.last() == truth_word(value).last());
    assert forall|k: int| 0 <= k < line.len() implies #[trigger] line[k] != '\n' by {
        if k >= "    ignore_empty_input = "@.len() {
            let n = k - "    ignore_empty_input = "@.len();
            assert(line[k] == truth_word(value)[n]);
        } else if k < 4 {
            reveal_strlit("    ignore_empty_input = ");
        } else {
            reveal_strlit("    ignore_empty_input = ");
        }
    }
    assert(truth_word(value)[truth_word(value).len() - 1] != '\r');
}

/// Once `ignore_empty_input` is set, reading it back gives what was set. A
/// configuration whose first setting of it is not understood is left out: it
/// keeps that line, and a reader still meets it first.
pub proof fn law_ignore_setting_takes_effect(content: Seq<char>, value: bool)
    requires
        ignore_empty(content) is Some || first_value(
            crate::text::lines(content),
            "ignore_empty_input"@,
        ) is None,
    ensures
        ignore_empty(ignore_set(content, value)) == Some(value),
{
    let key = "ignore_empty_input"@;
    let lines = crate::text::lines(content);
    let ended = crate::text::ends_feed(content);
    lemma_ignore_words();
    lemma_ignore_setting(value);
    crate::text::lemma_lines(content);
    if ignore_empty(content) == Some(value) {
    } else if ignore_empty(content) is Some {
        let k = lemma_first_value(lines, key);
        let new = lines.map_values(|l: Seq<char>| ignore_line(l, value));
        assert forall|i: int| 0 <= i < lines.len() implies one_line(#[trigger] new[i]) by {
            crate::text::lemma_trim_start(lines[i]);
            lemma_ignore_line_is_one_line(lines, i, value);
        }
        assert(crate::text::one_line_each(new)) by {
            assert forall|i: int, c: int|
                0 <= i < new.len() && 0 <= c < new[i].len() implies #[trigger] new[i][c]
                != '\n' by {
                assert(one_line(new[i]));
            }
        }
        assert(new.last() == ignore_line(lines.last(), value));
        assert(ended || new.last().len() > 0);
        crate::text::lemma_lines_of_join(new, ended);
        let read = crate::text::as_read(new, ended);
        assert forall|i: int| 0 <= i < k implies value_in(#[trigger] read[i], key) is None by {
            assert(value_in(lines[i], key) is None);
            lemma_sets_is_value(lines[i], key);
            assert(new[i] == lines[i]);
            lemma_value_of_stripped(lines[i], key);
        }
        lemma_sets_is_value(lines[k], key);
        lemma_written_setting(lines[k], key, truth_word(value));
        assert(new[k] == indent_of(lines[k]) + (key + " = "@ + truth_word(value)));
        lemma_value_of_stripped(new[k], key);
        lemma_first_value_at(read, key, k);
        assert(first_value(read, key) == Some(truth_word(value)));
    } else {
        let k = lemma_first_value(lines, key);
        match injected(content, value) {
            Some(t) => {
                let header = general_header(lines);
                let at = closing_line(lines, header as int + 1, 1)->0;
                lemma_closing_line(lines, header as int + 1, 1);
                let new = lines.insert(at, ignore_setting(value));
                assert(crate::text::one_line_each(new)) by {
                    assert forall|i: int, c: int|
                        0 <= i < new.len() && 0 <= c < new[i].len() implies #[trigger] new[i][c]
                        != '\n' by {
                        if i < at {
                            assert(lines[i][c] != '\n');
                        } else if i > at {
                            assert(lines[i - 1][c] != '\n');
                        } else {
                            assert(ignore_setting(value)[c] != '\n');
                        }
                    }
                }
                assert(new.last() == lines.last());
                crate::text::lemma_lines_of_join(new, ended);
                let read = crate::text::as_read(new, ended);
                assert forall|i: int| 0 <= i < at implies value_in(
                    #[trigger] read[i],
                    key,
                ) is None by {
                    assert(value_in(lines[i], key) is None);
                    lemma_value_of_stripped(lines[i], key);
                }
                lemma_value_of_stripped(new[at], key);
                lemma_first_value_at(read, key, at);
            },
            None => {
                reveal_strlit("general {\n");
                reveal_strlit("\n");
                reveal_strlit("}\n\n");
                reveal_strlit("general {");
                let feed = seq!['\n'];
                let head = "general {"@;
                let rest = "}\n\n"@ + content;
                let whole = ignore_set(content, value);
                assert("general {\n"@ =~= head + feed);
                assert("\n"@ =~= feed);
                assert(whole == head + feed + (ignore_setting(value) + feed + rest));
                crate::text::lemma_lines_front(head, ignore_setting(value) + feed + rest);
                crate::text::lemma_lines_front(ignore_setting(value), rest);
                let read = crate::text::lines(whole);
                assert(read[0] == crate::text::strip_cr(head));
                assert(read[1] == ignore_setting(value));
                assert(head.last() == '{');
                assert(read[0] == head);
                assert(value_in(read[0], key) is None) by {
                    reveal_strlit("ignore_empty_input");
                    assert(crate::text::trim_start(head) == head);
                    assert(head.len() < key.len());
                }
                lemma_first_value_at(read, key, 1);
            },
        }
    }
}

spec fn one_line(s: Seq<char>) -> bool {
    forall|k: int| 0 <= k < s.len() ==> #[trigger] s[k] != '\n'
}

proof fn lemma_ignore_line_is_one_line(lines: Seq<Seq<char>>, i: int, value: bool)
    requires
        crate::text::one_line_each(lines),
        0 <= i < lines.len(),
    ensures
        one_line(ignore_line(lines[i], value)),
{
    lemma_ignore_words();
    let line = lines[i];
    crate::text::lemma_trim_start(line);
    let new = ignore_line(line, value);
    assert forall|k: int| 0 <= k < new.len() implies #[trigger] new[k] != '\n' by {
        if sets(line, "ignore_empty_input"@) {
            let a = indent_of(line).len();
            let b = a + "ignore_empty_input = "@.len();
            if k < a {
                assert(new[k] == line[k]);
                assert(lines[i][k] != '\n');
            } else if k < b {
                assert(new[k] == "ignore_empty_input = "@[k - a]);
            } else {
                assert(new[k] == truth_word(value)[k - b]);
            }
        } else {
            assert(lines[i][k] != '\n');
        }
    }
}

proof fn lemma_closing_line(lines: Seq<Seq<char>>, i: int, depth: nat)
    ensures
        closing_line(lines, i, depth) matches Some(at) ==> i <= at < lines.len(),
    decreases lines.len() - i,
{
    if 0 <= i < lines.len() {
        lemma_closing_line(lines, i + 1, (depth - 1) as nat);
        lemma_closing_line(lines, i + 1, depth + 1);
        lemma_closing_line(lines, i + 1, depth);
    }
}

/// What is written on a placeholder line, after its indent.
spec fn face_text(fp: bool) -> Seq<char> {
    "placeholder_text = "@ + if fp {
        "<span> Enter Password "@ + FACE_ICON@ + " "@ + FP_ICON@ + " </span>"@
    } else {
        "<span> Enter Password "@ + FACE_ICON@ + " </span>"@
    }
}

spec fn faceless_text(fp: bool) -> Seq<char> {
    "placeholder_text = "@ + if fp {
        "<span> Enter Password "@ + FP_ICON@ + " </span>"@
    } else {
        "Enter Password"@
    }
}

/// What is known of the texts that are written on a placeholder line.
proof fn lemma_face_texts(fp: bool)
    ensures
        FACE_ICON@ == seq!['\u{f0100}'],
        FP_ICON@ == seq!['\u{f0237}'],
        "="@ == seq!['='],
        face_text(fp).contains('\u{f0100}'),
        face_text(fp).contains('\u{f0237}') == fp,
        face_text(fp).contains('='),
        crate::text::has_prefix(face_text(fp), "placeholder_text"@),
        !crate::text::is_space(face_text(fp)[0]),
        one_line(face_text(fp)),
        face_text(fp).last() == '>',
        face_text(fp).len() > 0,
        !faceless_text(fp).contains('\u{f0100}'),
        faceless_text(fp).contains('\u{f0237}') == fp,
        faceless_text(fp).len() > 0,
        !crate::text::is_space(faceless_text(fp)[0]),
        one_line(faceless_text(fp)),
{
    reveal_strlit("\u{f0100}");
    reveal_strlit("\u{f0237}");
    reveal_strlit("=");
    reveal_strlit("placeholder_text");
    reveal_strlit("placeholder_text = ");
    reveal_strlit("<span> Enter Password ");
    reveal_strlit("Enter Password");
    reveal_strlit(" ");
    reveal_strlit(" </span>");
    assert(FACE_ICON@ =~= seq!['\u{f0100}']);
    assert(FP_ICON@ =~= seq!['\u{f0237}']);
    assert("="@ =~= seq!['=']);
    let t = face_text(fp);
    assert(t[17] == '=');
    assert(t[41] == '\u{f0100}');
    assert(t.take(16) =~= "placeholder_text"@);
    let u = faceless_text(fp);
    if fp {
        assert(t[43] == '\u{f0237}');
        assert(u[41] == '\u{f0237}');
        assert forall|k: int| 0 <= k < t.len() implies #[trigger] t[k] != '\n' by {
            lemma_parts_face(k, fp);
        }
        assert forall|k: int| 0 <= k < u.len() implies #[trigger] u[k] != '\n' && u[k]
            != '\u{f0100}' by {
            lemma_parts_faceless(k, fp);
        }
    } else {
        assert forall|k: int| 0 <= k < t.len() implies #[trigger] t[k] != '\n' && t[k]
            != '\u{f0237}' by {
            lemma_parts_face(k, fp);
        }
        assert forall|k: int| 0 <= k < u.len() implies #[trigger] u[k] != '\n' && u[k]
            != '\u{f0100}' && u[k] != '\u{f0237}' by {
            lemma_parts_faceless(k, fp);
        }
    }
}

proof fn lemma_parts_face(k: int, fp: bool)
    requires
        0 <= k < face_text(fp).len(),
    ensures
        face_text(fp)[k] != '\n',
        !fp ==> face_text(fp)[k] != '\u{f0237}',
{
    reveal_strlit("\u{f0100}");
    reveal_strlit("\u{f0237}");
    reveal_strlit("placeholder_text = ");
    reveal_strlit("<span> Enter Password ");
    reveal_strlit(" ");
    reveal_strlit(" </span>");
    let a = "placeholder_text = "@;
    let b = "<span> Enter Password "@;
    assert(a.len() == 19 && b.len() == 22);
    if k < 19 {
        assert(face_text(fp)[k] == a[k]);
    } else if k < 41 {
        assert(face_text(fp)[k] == b[k - 19]);
    } else if fp {
        if k >= 44 {
            assert(face_text(fp)[k] == " </span>"@[k - 44]);
        }
    } else {
        if k >= 42 {
            assert(face_text(fp)[k] == " </span>"@[k - 42]);
        }
    }
}

proof fn lemma_parts_faceless(k: int, fp: bool)
    requires
        0 <= k < faceless_text(fp).len(),
    ensures
        faceless_text(fp)[k] != '\n',
        faceless_text(fp)[k] != '\u{f0100}',
        !fp ==> faceless_text(fp)[k] != '\u{f0237}',
{
    reveal_strlit("\u{f0237}");
    reveal_strlit("placeholder_text = ");
    reveal_strlit("<span> Enter Password ");
    reveal_strlit("Enter Password");
    reveal_strlit(" </span>");
    let a = "placeholder_text = "@;
    let b = "<span> Enter Password "@;
    assert(a.len() == 19 && b.len() == 22);
    if k < 19 {
        assert(faceless_text(fp)[k] == a[k]);
    } else if fp {
        if k < 41 {
            assert(faceless_text(fp)[k] == b[k - 19]);
        } else if k >= 42 {
            assert(faceless_text(fp)[k] == " </span>"@[k - 42]);
        }
    } else {
        assert(faceless_text(fp)[k] == "Enter Password"@[k - 19]);
    }
}

proof fn lemma_with_face(line: Seq<char>)
    requires
        one_line(line),
    ensures
        crate::text::trim_start(with_face(line)) == face_text(line_holds(line, FP_ICON@)),
        crate::text::trim_start(without_face(line)) == faceless_text(line_holds(line, FP_ICON@)),
        one_line(with_face(line)),
        one_line(without_face(line)),
        with_face(line).len() > 0,
        crate::text::strip_cr(with_face(line)) == with_face(line),
        sets(with_face(line), "placeholder_text"@),
        line_holds(with_face(line), FACE_ICON@),
        line_holds(with_face(line), FP_ICON@) == line_holds(line, FP_ICON@),
        line_holds(without_face(line), FP_ICON@) == line_holds(line, FP_ICON@),
        !line_holds(without_face(line), FACE_ICON@),
{
    let fp = line_holds(line, FP_ICON@);
    lemma_face_texts(fp);
    crate::text::lemma_trim_start(line);
    let pad = indent_of(line);
    assert forall|k: int| 0 <= k < pad.len() implies crate::text::is_space(#[trigger] pad[k]) by {
        assert(pad[k] == line[k]);
    }
    assert(with_face(line) == pad + face_text(fp));
    assert(without_face(line) == pad + faceless_text(fp));
    crate::text::lemma_trim_start_of_indented(pad, face_text(fp));
    crate::text::lemma_trim_start_of_indented(pad, faceless_text(fp));
    crate::text::lemma_contains_char(face_text(fp), '\u{f0100}');
    crate::text::lemma_contains_char(face_text(fp), '\u{f0237}');
    crate::text::lemma_contains_char(face_text(fp), '=');
    crate::text::lemma_contains_char(faceless_text(fp), '\u{f0100}');
    crate::text::lemma_contains_char(faceless_text(fp), '\u{f0237}');
    assert forall|k: int| 0 <= k < with_face(line).len() implies #[trigger] with_face(line)[k]
        != '\n' by {
        if k < pad.len() {
            assert(with_face(line)[k] == line[k]);
        } else {
            assert(with_face(line)[k] == face_text(fp)[k - pad.len()]);
        }
    }
    assert forall|k: int| 0 <= k < without_face(line).len() implies #[trigger] without_face(line)[k]
        != '\n' by {
        if k < pad.len() {
            assert(without_face(line)[k] == line[k]);
        } else {
            assert(without_face(line)[k] == faceless_text(fp)[k - pad.len()]);
        }
    }
    assert(with_face(line).last() == face_text(fp).last());
}

proof fn lemma_first_placeholder(lines: Seq<Seq<char>>)
    ensures
        first_placeholder(lines) <= lines.len(),
        forall|i: int|
            0 <= i < first_placeholder(lines) ==> !sets(#[trigger] lines[i], "placeholder_text"@),
        first_placeholder(lines) < lines.len() ==> sets(
            lines[first_placeholder(lines) as int],
            "placeholder_text"@,
        ),
    decreases lines.len(),
{
    if lines.len() > 0 && !sets(lines[0], "placeholder_text"@) {
        let rest = lines.skip(1);
        lemma_first_placeholder(rest);
        assert forall|i: int| 0 <= i < first_placeholder(lines) implies !sets(
            #[trigger] lines[i],
            "placeholder_text"@,
        ) by {
            if i > 0 {
                assert(rest[i - 1] == lines[i]);
            }
        }
        if first_placeholder(rest) < rest.len() {
            assert(rest[first_placeholder(rest) as int] == lines[first_placeholder(
                rest,
            ) as int + 1]);
        }
    }
}

proof fn lemma_first_placeholder_is(lines: Seq<Seq<char>>, k: int)
    requires
        0 <= k < lines.len(),
        forall|i: int| 0 <= i < k ==> !sets(#[trigger] lines[i], "placeholder_text"@),
        sets(lines[k], "placeholder_text"@),
    ensures
        first_placeholder(lines) == k,
{
    lemma_first_placeholder(lines);
    let m = first_placeholder(lines) as int;
    if m < k {
        assert(!sets(lines[m], "placeholder_text"@));
    } else if k < m {
        assert(!sets(lines[k], "placeholder_text"@));
    }
}

/// What a reader finds once the icon is added.
proof fn lemma_lines_with_icon(content: Seq<char>)
    requires
        crate::text::settled(content),
    ensures
        crate::text::lines(with_icon(content)) == face_added(crate::text::lines(content)),
        crate::text::ends_feed(with_icon(content)) == crate::text::ends_feed(content),
        first_placeholder(crate::text::lines(content)) < crate::text::lines(content).len()
            ==> first_placeholder(crate::text::lines(with_icon(content))) == first_placeholder(
            crate::text::lines(content),
        ),
{
    let lines = crate::text::lines(content);
    let ended = crate::text::ends_feed(content);
    let new = face_added(lines);
    let once = with_icon(content);
    crate::text::lemma_lines(content);
    lemma_first_placeholder(lines);
    let k = first_placeholder(lines) as int;
    if lines.len() == 0 {
        assert(content.len() == 0);
        assert(once == Seq::<char>::empty());
        assert(crate::text::lines(once) == lines);
    } else {
        assert forall|i: int| 0 <= i < lines.len() implies one_line(#[trigger] lines[i]) by {
            assert forall|c: int| 0 <= c < lines[i].len() implies #[trigger] lines[i][c]
                != '\n' by {}
        }
        if k < lines.len() {
            lemma_with_face(lines[k]);
        }
        assert(crate::text::one_line_each(new)) by {
            assert forall|i: int, c: int|
                0 <= i < new.len() && 0 <= c < new[i].len() implies #[trigger] new[i][c]
                != '\n' by {
                if new[i] == lines[i] {
                    assert(lines[i][c] != '\n');
                } else {
                    assert(one_line(with_face(lines[k])));
                }
            }
        }
        assert(crate::text::as_read(new, ended) == new) by {
            assert forall|i: int| 0 <= i < new.len() implies #[trigger] crate::text::as_read(
                new,
                ended,
            )[i] == new[i] by {
                assert(crate::text::as_read(lines, ended)[i] == lines[i]);
            }
        }
        assert(ended || new.last().len() > 0);
        crate::text::lemma_lines_of_join(new, ended);
        assert(crate::text::lines(once) == new);
        if k < lines.len() {
            assert forall|i: int| 0 <= i < k implies !sets(
                #[trigger] new[i],
                "placeholder_text"@,
            ) by {
                assert(new[i] == lines[i]);
            }
            lemma_first_placeholder_is(new, k);
        } else {
            assert(new == lines);
        }
        let text = crate::text::join(new, seq!['\n']);
        assert(crate::text::ends_feed(once) == ended) by {
            if ended {
                assert(once.last() == '\n');
            } else {
                assert(once == text);
                assert(text.last() == new.last().last()) by {
                    if new.len() > 1 {
                        assert(text == crate::text::join(new.drop_last(), seq!['\n']) + seq!['\n']
                            + new.last());
                    }
                }
                assert(new[new.len() - 1][new.last().len() - 1] != '\n');
            }
        }
    }
}

/// Adding the icon a second time changes nothing, and is reported as already
/// done where there is a placeholder line. A configuration with a line that
/// ends in two carriage returns is left out: each edit writes one of them less.
pub proof fn law_adding_the_icon_is_idempotent(content: Seq<char>)
    requires
        crate::text::settled(content),
    ensures
        with_icon(with_icon(content)) == with_icon(content),
        !lacks_face(crate::text::lines(with_icon(content))),
        first_placeholder(crate::text::lines(content)) < crate::text::lines(content).len()
            ==> shows_face(crate::text::lines(with_icon(content))),
{
    let lines = crate::text::lines(content);
    lemma_lines_with_icon(content);
    lemma_first_placeholder(lines);
    crate::text::lemma_lines(content);
    let k = first_placeholder(lines) as int;
    if k < lines.len() {
        assert forall|c: int| 0 <= c < lines[k].len() implies #[trigger] lines[k][c] != '\n' by {}
        assert(one_line(lines[k]));
        lemma_with_face(lines[k]);
    }
}

/// Once the icon is removed, no placeholder line shows it.
pub proof fn law_no_icon_remains(content: Seq<char>)
    ensures
        !any_face(crate::text::lines(without_icon(content))),
{
    let lines = crate::text::lines(content);
    let ended = crate::text::ends_feed(content);
    let new = lines.map_values(|l: Seq<char>| face_removed_line(l));
    crate::text::lemma_lines(content);
    assert forall|i: int| 0 <= i < lines.len() implies one_line(#[trigger] lines[i]) by {
        assert forall|c: int| 0 <= c < lines[i].len() implies #[trigger] lines[i][c] != '\n' by {}
    }
    assert(crate::text::one_line_each(new)) by {
        assert forall|i: int, c: int| 0 <= i < new.len() && 0 <= c < new[i].len() implies #[trigger]
            new[i][c] != '\n' by {
            assert(one_line(lines[i]));
            lemma_with_face(lines[i]);
            assert(one_line(new[i]));
        }
    }
    let read = crate::text::lines(without_icon(content));
    assert forall|i: int| 0 <= i < read.len() implies !(sets(#[trigger] read[i], "placeholder_text"@)
        && line_holds(read[i], FACE_ICON@)) by {
        let line = read[i];
        assert(read.contains(line));
        crate::text::lemma_lines_of_join_are_known(new, ended, line);
        if line.len() == 0 {
            reveal_strlit("placeholder_text");
        } else if new.contains(line) {
            let j = choose|j: int| 0 <= j < new.len() && new[j] == line;
            assert(one_line(lines[j]));
            lemma_with_face(lines[j]);
        } else {
            let j = choose|j: int| 0 <= j < new.len() && line == crate::text::strip_cr(
                #[trigger] new[j],
            );
            assert(one_line(lines[j]));
            lemma_with_face(lines[j]);
            lemma_shorter_line_shows_less(new[j]);
        }
    }
}

/// A line without the carriage return at its end shows the icon on a
/// placeholder only if the whole line does.
proof fn lemma_shorter_line_shows_less(line: Seq<char>)
    ensures
        sets(crate::text::strip_cr(line), "placeholder_text"@) && line_holds(
            crate::text::strip_cr(line),
            FACE_ICON@,
        ) ==> sets(line, "placeholder_text"@) && line_holds(line, FACE_ICON@),
{
    if line.len() > 0 && line.last() == '\r' {
        let short = line.drop_last();
        lemma_face_texts(true);
        lemma_trim_start_of_shorter(line);
        let t = crate::text::trim_start(line);
        let u = crate::text::trim_start(short);
        crate::text::lemma_contains_char(t, '\u{f0100}');
        crate::text::lemma_contains_char(u, '\u{f0100}');
        crate::text::lemma_contains_char(t, '=');
        crate::text::lemma_contains_char(u, '=');
        if u.contains('\u{f0100}') && u.contains('=') {
            let a = choose|a: int| 0 <= a < u.len() && u[a] == '\u{f0100}';
            let b = choose|b: int| 0 <= b < u.len() && u[b] == '=';
            assert(t[a] == u[a] && t[b] == u[b]);
        }
        let n = "placeholder_text"@.len() as int;
        if crate::text::has_prefix(u, "placeholder_text"@) {
            assert(t.take(n) == u.take(n));
        }
    }
}

proof fn lemma_trim_start_of_shorter(line: Seq<char>)
    requires
        line.len() > 0,
    ensures
        crate::text::trim_start(line.drop_last()).len() <= crate::text::trim_start(line).len(),
        forall|k: int|
            0 <= k < crate::text::trim_start(line.drop_last()).len()
                ==> #[trigger] crate::text::trim_start(line.drop_last())[k]
                == crate::text::trim_start(line)[k],
    decreases line.len(),
{
    let short = line.drop_last();
    if line.len() > 1 && crate::text::is_space(line[0]) {
        assert(short[0] == line[0]);
        assert(short.skip(1) == line.skip(1).drop_last());
        lemma_trim_start_of_shorter(line.skip(1));
    } else if line.len() == 1 {
        assert(short == Seq::<char>::empty());
    } else {
        assert(short[0] == line[0]);
    }
}

/// The value of a setting is what was written behind its key and an equals sign,
/// whatever the indent.
pub proof fn law_a_setting_reads_back(line: Seq<char>, key: Seq<char>, value: Seq<char>)
    requires
        key.len() > 0,
        !crate::text::is_space(key[0]),
        !key.contains('='),
        value.len() > 0,
        !crate::text::is_space(value[0]),
        !crate::text::is_space(value.last()),
    ensures
        value_in(indent_of(line) + (key + " = "@ + value), key) == Some(value),
        value_in(line, key) is Some ==> crate::text::has_prefix(
            crate::text::trim_start(line),
            key,
        ),
{
    lemma_written_setting(line, key, value);
}

/// The value that is written on a placeholder line with the icon, or without it.
spec fn prompt_value(face: bool, fp: bool) -> Seq<char> {
    if face && fp {
        "<span> Enter Password "@ + FACE_ICON@ + " "@ + FP_ICON@ + " </span>"@
    } else if face {
        "<span> Enter Password "@ + FACE_ICON@ + " </span>"@
    } else if fp {
        "<span> Enter Password "@ + FP_ICON@ + " </span>"@
    } else {
        "Enter Password"@
    }
}

proof fn lemma_prompt_value(face: bool, fp: bool)
    ensures
        crate::text::contains(prompt_value(face, fp), "Enter Password"@),
        prompt_value(face, fp).len() > 0,
        !crate::text::is_space(prompt_value(face, fp)[0]),
        !crate::text::is_space(prompt_value(face, fp).last()),
{
    reveal_strlit("<span> Enter Password ");
    reveal_strlit("Enter Password");
    reveal_strlit(" </span>");
    let a = prompt_value(face, fp);
    let word = "Enter Password"@;
    let w = word.len() as int;
    crate::text::law_contained_stands_somewhere(a, word);
    if face || fp {
        let head = "<span> Enter Password "@;
        assert(a.take(head.len() as int) =~= head);
        assert(head.subrange(7, 7 + w) =~= word);
        assert(a.subrange(7, 7 + w) =~= head.subrange(7, 7 + w));
        assert(a[0] == head[0]);
        assert(a.last() == " </span>"@.last());
    } else {
        assert(a.subrange(0, w) =~= word);
    }
}

proof fn lemma_prompt_icons(face: bool, fp: bool)
    ensures
        prompt_value(face, fp).contains('\u{f0100}') == face,
        prompt_value(face, fp).contains('\u{f0237}') == fp,
{
    lemma_face_texts(fp);
    reveal_strlit("placeholder_text = ");
    let n = "placeholder_text = "@.len() as int;
    assert forall|k: int| 0 <= k < n implies "placeholder_text = "@[k] != '\u{f0100}'
        && "placeholder_text = "@[k] != '\u{f0237}' by {}
    let a = prompt_value(face, fp);
    let t = if face {
        face_text(fp)
    } else {
        faceless_text(fp)
    };
    assert(t =~= "placeholder_text = "@ + a);
    lemma_tail_contains("placeholder_text = "@, a, '\u{f0100}');
    lemma_tail_contains("placeholder_text = "@, a, '\u{f0237}');
}

proof fn lemma_tail_contains(head: Seq<char>, tail: Seq<char>, c: char)
    requires
        forall|k: int| 0 <= k < head.len() ==> #[trigger] head[k] != c,
    ensures
        (head + tail).contains(c) == tail.contains(c),
{
    let all = head + tail;
    if all.contains(c) {
        let k = choose|k: int| 0 <= k < all.len() && all[k] == c;
        if k < head.len() {
            assert(head[k] == c);
        }
        assert(tail[k - head.len()] == c);
    }
    if tail.contains(c) {
        let k = choose|k: int| 0 <= k < tail.len() && tail[k] == c;
        assert(all[k + head.len()] == c);
    }
}

proof fn lemma_placeholder_values(line: Seq<char>)
    ensures
        value_in(with_face(line), "placeholder_text"@) == Some(
            prompt_value(true, line_holds(line, FP_ICON@)),
        ),
        value_in(without_face(line), "placeholder_text"@) == Some(
            prompt_value(false, line_holds(line, FP_ICON@)),
        ),
{
    let fp = line_holds(line, FP_ICON@);
    let key = "placeholder_text"@;
    lemma_prompt_value(true, fp);
    lemma_prompt_value(false, fp);
    reveal_strlit("placeholder_text");
    reveal_strlit("placeholder_text = ");
    reveal_strlit(" = ");
    assert("placeholder_text = "@ =~= key + " = "@);
    assert forall|k: int| 0 <= k < key.len() implies #[trigger] key[k] != '=' by {}
    lemma_written_setting(line, key, prompt_value(true, fp));
    lemma_written_setting(line, key, prompt_value(false, fp));
    assert(with_face(line) =~= indent_of(line) + (key + " = "@ + prompt_value(true, fp)));
    assert(without_face(line) =~= indent_of(line) + (key + " = "@ + prompt_value(false, fp)));
}

/// The prompt outlives both edits: a placeholder line that gained or lost the face
/// icon still asks for the password, at the indent that it had. With the icon its
/// value shows the face, without it it does not, and either way it shows the
/// fingerprint exactly if the line did.
pub proof fn law_the_prompt_stays(line: Seq<char>)
    requires
        forall|k: int| 0 <= k < line.len() ==> #[trigger] line[k] != '\n',
    ensures
        value_in(with_face(line), "placeholder_text"@) matches Some(value) && {
            &&& crate::text::contains(value, "Enter Password"@)
            &&& value.contains('\u{f0100}')
            &&& value.contains('\u{f0237}') <==> crate::text::trim_start(line).contains('\u{f0237}')
        },
        value_in(without_face(line), "placeholder_text"@) matches Some(value) && {
            &&& crate::text::contains(value, "Enter Password"@)
            &&& !value.contains('\u{f0100}')
            &&& value.contains('\u{f0237}') <==> crate::text::trim_start(line).contains('\u{f0237}')
        },
        indent_of(with_face(line)) == indent_of(line),
        indent_of(without_face(line)) == indent_of(line),
{
    assert(one_line(line));
    lemma_placeholder_values(line);
    lemma_with_face(line);
    let fp = line_holds(line, FP_ICON@);
    lemma_prompt_value(true, fp);
    lemma_prompt_value(false, fp);
    lemma_prompt_icons(true, fp);
    lemma_prompt_icons(false, fp);
    lemma_face_texts(fp);
    crate::text::lemma_contains_char(crate::text::trim_start(line), '\u{f0237}');
    crate::text::lemma_trim_start(line);
    assert(with_face(line) =~= indent_of(line) + face_text(fp));
    assert(without_face(line) =~= indent_of(line) + faceless_text(fp));
    assert(indent_of(with_face(line)) =~= indent_of(line));
    assert(indent_of(without_face(line)) =~= indent_of(line));
}

/// Adding the icon rewrites one line at most: the first that sets the placeholder,
/// and that only where it lacks the icon. Every other line stays as it is.
pub proof fn law_adding_touches_the_first_placeholder_only(content: Seq<char>, i: int)
    requires
        0 <= i < crate::text::lines(content).len(),
    ensures
        ({
            let lines = crate::text::lines(content);
            let new = face_added(lines);
            &&& new.len() == lines.len()
            &&& (sets(lines[i], "placeholder_text"@) && !line_holds(lines[i], FACE_ICON@) && (
            forall|j: int| 0 <= j < i ==> !sets(#[trigger] lines[j], "placeholder_text"@)))
                ==> new[i] == with_face(lines[i])
            &&& !(sets(lines[i], "placeholder_text"@) && !line_holds(lines[i], FACE_ICON@) && (
            forall|j: int| 0 <= j < i ==> !sets(#[trigger] lines[j], "placeholder_text"@)))
                ==> new[i] == lines[i]
        }),
{
    let lines = crate::text::lines(content);
    lemma_first_placeholder(lines);
    let k = first_placeholder(lines) as int;
    if sets(lines[i], "placeholder_text"@) && (forall|j: int|
        0 <= j < i ==> !sets(#[trigger] lines[j], "placeholder_text"@)) {
        lemma_first_placeholder_is(lines, i);
    }
}

/// Removing the icon rewrites every placeholder line that has it, and no other
/// line.
pub proof fn law_removal_touches_only_lines_with_the_icon(line: Seq<char>)
    requires
        forall|k: int| 0 <= k < line.len() ==> #[trigger] line[k] != '\n',
    ensures
        sets(line, "placeholder_text"@) && line_holds(line, FACE_ICON@) ==> (value_in(
            face_removed_line(line),
            "placeholder_text"@,
        ) matches Some(value) && crate::text::contains(value, "Enter Password"@)
            && !value.contains('\u{f0100}')),
        !(sets(line, "placeholder_text"@) && line_holds(line, FACE_ICON@)) ==> face_removed_line(
            line,
        ) == line,
{
    let fp = line_holds(line, FP_ICON@);
    lemma_placeholder_values(line);
    lemma_prompt_value(false, fp);
    lemma_prompt_icons(false, fp);
}

/// Removing what was added gives a stock configuration back, character by
/// character: one whose first placeholder line is the plain prompt, and none of
/// whose placeholder lines has an icon yet.
pub proof fn law_removing_the_icon_undoes_adding_it(content: Seq<char>)
    requires
        crate::text::plain_endings(content),
        forall|i: int|
            0 <= i < crate::text::lines(content).len() && sets(
                #[trigger] crate::text::lines(content)[i],
                "placeholder_text"@,
            ) ==> crate::text::lines(content)[i] == indent_of(crate::text::lines(content)[i])
                + "placeholder_text = Enter Password"@,
    ensures
        without_icon(with_icon(content)) == content,
{
    let lines = crate::text::lines(content);
    crate::text::lemma_lines(content);
    lemma_lines_with_icon(content);
    lemma_first_placeholder(lines);
    crate::text::lemma_join_of_lines(content);
    let new = face_added(lines);
    let back = new.map_values(|l: Seq<char>| face_removed_line(l));
    let k = first_placeholder(lines) as int;
    reveal_strlit("placeholder_text = Enter Password");
    reveal_strlit("placeholder_text = ");
    reveal_strlit("Enter Password");
    assert("placeholder_text = Enter Password"@ =~= "placeholder_text = "@ + "Enter Password"@);
    assert(faceless_text(false) =~= "placeholder_text = Enter Password"@);
    lemma_face_texts(false);
    assert forall|i: int| 0 <= i < lines.len() implies one_line(#[trigger] lines[i]) by {
        assert forall|c: int| 0 <= c < lines[i].len() implies #[trigger] lines[i][c] != '\n' by {}
    }
    assert forall|i: int| 0 <= i < lines.len() && sets(
        #[trigger] lines[i],
        "placeholder_text"@,
    ) implies !line_holds(lines[i], FACE_ICON@) && !line_holds(lines[i], FP_ICON@) by {
        let t = crate::text::trim_start(lines[i]);
        crate::text::lemma_trim_start(lines[i]);
        assert(t =~= faceless_text(false));
        crate::text::lemma_contains_char(t, '\u{f0100}');
        crate::text::lemma_contains_char(t, '\u{f0237}');
    }
    assert forall|i: int| 0 <= i < lines.len() implies #[trigger] back[i] == lines[i] by {
        assert(one_line(lines[i]));
        if i == k {
            lemma_with_face(lines[k]);
            law_the_prompt_stays(lines[k]);
            assert(back[i] == without_face(with_face(lines[k])));
            assert(back[i] =~= indent_of(lines[k]) + faceless_text(false));
        } else {
            assert(new[i] == lines[i]);
        }
    }
    assert(back =~= lines);
}

/// A truth value is understood in three words each, and nothing else is one.
pub proof fn law_truth_values_are_understood(content: Seq<char>, value: Seq<char>)
    requires
        first_value(crate::text::lines(content), "ignore_empty_input"@) == Some(value),
    ensures
        value == "true"@ || value == "yes"@ || value == "1"@ ==> ignore_empty(content) == Some(
            true,
        ),
        value == "false"@ || value == "no"@ || value == "0"@ ==> ignore_empty(content) == Some(
            false,
        ),
        ignore_empty(content) == Some(true) ==> value == "true"@ || value == "yes"@ || value
            == "1"@,
        ignore_empty(content) == Some(false) ==> value == "false"@ || value == "no"@ || value
            == "0"@,
{
    reveal_strlit("true");
    reveal_strlit("yes");
    reveal_strlit("1");
    reveal_strlit("false");
    reveal_strlit("no");
    reveal_strlit("0");
    assert("true"@.len() == 4 && "yes"@.len() == 3 && "1"@.len() == 1 && "false"@.len() == 5
        && "no"@.len() == 2 && "0"@.len() == 1);
    assert("1"@[0] == '1' && "0"@[0] == '0');
}

/// The first line that sets a key decides what a reader finds.
pub proof fn law_the_first_setting_decides(lines: Seq<Seq<char>>, key: Seq<char>, i: int)
    requires
        0 <= i < lines.len(),
        value_in(lines[i], key) is Some,
        forall|j: int| 0 <= j < i ==> value_in(#[trigger] lines[j], key) is None,
    ensures
        first_value(lines, key) == value_in(lines[i], key),
{
    lemma_first_value_at(lines, key, i);
}

/// The setting is put into the general block: behind its opening line, before a
/// line that begins with a closing brace, and no other line is touched.
pub proof fn law_the_setting_goes_into_the_general_block(content: Seq<char>, value: bool)
    ensures
        ({
            let lines = crate::text::lines(content);
            let setting = "    ignore_empty_input = "@ + (if value {
                "true"@
            } else {
                "false"@
            });
            injected(content, value) matches Some(text) ==> exists|header: int, at: int|
                {
                    &&& 0 <= header < at < lines.len()
                    &&& #[trigger] opens_general(lines[header])
                    &&& forall|i: int| 0 <= i < header ==> !opens_general(#[trigger] lines[i])
                    &&& #[trigger] crate::text::has_prefix(crate::text::trim(lines[at]), "}"@)
                    &&& text == with_lines(lines.insert(at, setting), content)
                }
        }),
{
    let lines = crate::text::lines(content);
    lemma_general_header(lines);
    let header = general_header(lines) as int;
    if injected(content, value) is Some {
        lemma_closing_line(lines, header + 1, 1);
        lemma_closing_line_closes(lines, header + 1, 1);
        let at = closing_line(lines, header + 1, 1)->0;
        assert(opens_general(lines[header]));
        assert(crate::text::has_prefix(crate::text::trim(lines[at]), "}"@));
    }
}

proof fn lemma_general_header(lines: Seq<Seq<char>>)
    ensures
        general_header(lines) <= lines.len(),
        general_header(lines) < lines.len() ==> opens_general(lines[general_header(lines) as int]),
        forall|i: int| 0 <= i < general_header(lines) ==> !opens_general(#[trigger] lines[i]),
    decreases lines.len(),
{
    if lines.len() > 0 && !opens_general(lines[0]) {
        let rest = lines.skip(1);
        lemma_general_header(rest);
        assert forall|i: int| 0 <= i < general_header(lines) implies !opens_general(
            #[trigger] lines[i],
        ) by {
            if i > 0 {
                assert(rest[i - 1] == lines[i]);
            }
        }
        if general_header(rest) < rest.len() {
            assert(rest[general_header(rest) as int] == lines[general_header(rest) as int + 1]);
        }
    }
}

proof fn lemma_closing_line_closes(lines: Seq<Seq<char>>, i: int, depth: nat)
    ensures
        closing_line(lines, i, depth) matches Some(at) ==> 0 <= at < lines.len()
            && crate::text::has_prefix(crate::text::trim(lines[at]), "}"@),
    decreases lines.len() - i,
{
    if 0 <= i < lines.len() {
        lemma_closing_line_closes(lines, i + 1, (depth - 1) as nat);
        lemma_closing_line_closes(lines, i + 1, depth + 1);
        lemma_closing_line_closes(lines, i + 1, depth);
    }
}

/// The general block opens with its name and a brace, with or without a blank
/// between them, and however it is indented.
pub proof fn law_the_general_block_opens_by_its_name(
    indent: Seq<char>,
    back: Seq<char>,
)
    requires
        forall|k: int| 0 <= k < indent.len() ==> crate::text::is_space(#[trigger] indent[k]),
        forall|k: int| 0 <= k < back.len() ==> crate::text::is_space(#[trigger] back[k]),
    ensures
        opens_general(indent + "general {"@ + back),
        opens_general(indent + "general{"@ + back),
        forall|line: Seq<char>| #[trigger]
            opens_general(line) ==> crate::text::has_prefix(crate::text::trim(line), "general"@),
{
    reveal_strlit("general {");
    reveal_strlit("general{");
    reveal_strlit("general");
    let spaced = "general {"@;
    let close = "general{"@;
    assert(spaced[0] == 'g' && spaced.last() == '{' && close[0] == 'g' && close.last() == '{');
    crate::text::law_trim_leaves_the_middle(indent, spaced, back);
    crate::text::law_trim_leaves_the_middle(indent, close, back);
    assert(spaced.take(9) =~= spaced);
    assert(spaced.take(7) =~= "general"@);
    assert(close.take(7) =~= "general"@);
    assert forall|line: Seq<char>| #[trigger] opens_general(line) implies crate::text::has_prefix(
        crate::text::trim(line),
        "general"@,
    ) by {
        let t = crate::text::trim(line);
        if crate::text::has_prefix(t, spaced) {
            assert(t.take(7) =~= t.take(9).take(7));
        }
    }
}

/// A block closes at the brace that is its own: blocks that open inside it close
/// first.
pub proof fn law_inner_blocks_close_first(lines: Seq<Seq<char>>, i: int, depth: nat)
    requires
        0 <= i < lines.len(),
        depth >= 1,
    ensures
        ({
            let t = crate::text::trim(lines[i]);
            let closes = crate::text::has_prefix(t, "}"@);
            let opens = !closes && crate::text::has_suffix(t, "{"@);
            &&& closes && depth == 1 ==> closing_line(lines, i, depth) == Some(i)
            &&& closes && depth > 1 ==> closing_line(lines, i, depth) == closing_line(
                lines,
                i + 1,
                (depth - 1) as nat,
            )
            &&& opens ==> closing_line(lines, i, depth) == closing_line(lines, i + 1, depth + 1)
            &&& !closes && !opens ==> closing_line(lines, i, depth) == closing_line(
                lines,
                i + 1,
                depth,
            )
        }),
{
}

/// A configuration that says nothing of the setting and has no general block that
/// closes gets one in front, and is otherwise kept.
pub proof fn law_a_general_block_is_put_in_front(content: Seq<char>, value: bool)
    requires
        ignore_empty(content) is None,
        injected(content, value) is None,
    ensures
        crate::text::has_suffix(ignore_set(content, value), content),
        crate::text::has_prefix(ignore_set(content, value), "general {\n"@),
{
    let head = "general {\n"@ + ignore_setting(value) + "\n"@ + "}\n\n"@;
    let whole = ignore_set(content, value);
    assert(whole =~= head + content);
    crate::text::law_suffix_is_a_back_part(whole, content);
    let rest = ignore_setting(value) + "\n"@ + "}\n\n"@ + content;
    assert(whole =~= "general {\n"@ + rest);
    crate::text::law_prefix_is_a_front_part(whole, "general {\n"@);
}

/// Setting what is already set changes nothing.
pub proof fn law_setting_what_is_set_changes_nothing(content: Seq<char>)
    ensures
        ignore_empty(content) matches Some(value) ==> ignore_set(content, value) == content,
{
}

/// Disabling leaves the setting alone where a fingerprint is looked for, in the
/// service file or in the configuration, and otherwise restores it.
pub proof fn law_a_fingerprint_keeps_the_setting(content: Seq<char>, pam: Option<Seq<char>>)
    ensures
        ({
            let fingerprint = (pam matches Some(c) && mentions(c, "pam_fprintd.so"@)) || exists|
                i: int,
            |
                0 <= i < crate::text::lines(without_icon(content)).len()
                    && switches_fingerprint_on(
                    #[trigger] crate::text::lines(without_icon(content))[i],
                );
            &&& fingerprint ==> disabled(content, pam) == without_icon(content)
                && !disable_restores(content, pam)
            &&& !fingerprint && (ignore_empty(without_icon(content)) is Some || first_value(
                crate::text::lines(without_icon(content)),
                "ignore_empty_input"@,
            ) is None) ==> ignore_empty(disabled(content, pam)) == Some(true)
        }),
{
    if ignore_empty(without_icon(content)) is Some || first_value(
        crate::text::lines(without_icon(content)),
        "ignore_empty_input"@,
    ) is None {
        law_ignore_setting_takes_effect(without_icon(content), true);
    }
}

/// After enabling, an empty input is submitted, and the configuration is written
/// unless it shows the face and submits empty input already.
pub proof fn law_enabling_submits_empty_input(content: Seq<char>)
    requires
        ignore_empty(with_icon(content)) is Some || first_value(
            crate::text::lines(with_icon(content)),
            "ignore_empty_input"@,
        ) is None,
    ensures
        ignore_empty(enabled(content)) == Some(false),
        !enable_changes(content) <==> shows_face(crate::text::lines(content)) && ignore_empty(
            with_icon(content),
        ) == Some(false),
{
    law_ignore_setting_takes_effect(with_icon(content), false);
}

/// A comment neither switches fingerprint recognition on nor mentions a module.
pub proof fn law_comments_count_for_nothing(line: Seq<char>, needle: Seq<char>)
    requires
        crate::text::has_prefix(crate::text::trim_start(line), "#"@),
        forall|k: int| 0 <= k < line.len() ==> #[trigger] line[k] != '\n',
        line.len() > 0,
    ensures
        !switches_fingerprint_on(line),
        !mentions(line, needle),
{
    crate::text::law_lines_end_at_line_feeds(line, Seq::empty());
    assert(crate::text::lines(line) =~= seq![line]);
}

/// The command runs exactly for someone who is not root and has a configuration; a
/// missing one is named by its path.
pub proof fn law_only_a_users_own_configuration_is_edited(
    path: Seq<char>,
    there: bool,
    is_root: bool,
)
    ensures
        root_refusal(is_root) is None <==> !is_root,
        conf_missing(path, there) is None <==> there,
        conf_missing(path, there) matches Some(m) ==> m == "hyprlock config not found at "@ + path
            + ".\nInstall hyprlock and create the config first."@,
{
}

/// Enabling says what it did: that there was nothing to do, exactly where nothing
/// changed; that the icon was added, exactly where the placeholder lacked it; and
/// whether the setting was changed or already so.
pub proof fn law_enabling_says_what_it_did(content: Seq<char>)
    ensures
        ({
            let lines = crate::text::lines(content);
            let says = enable_says(content);
            let set = ignore_empty(with_icon(content)) != Some(false);
            &&& !enable_changes(content) ==> says == seq![
                "Face icon already present and ignore_empty_input already false."@,
            ]
            &&& enable_changes(content) && lacks_face(lines) ==> says.len() == 2 && says[0]
                == "Added face icon to placeholder_text."@
            &&& enable_changes(content) && shows_face(lines) ==> says.len() == 2 && says[0]
                == "Face icon already present in placeholder_text."@
            &&& enable_changes(content) && !shows_face(lines) && !lacks_face(lines) ==> says.len()
                == 1
            &&& enable_changes(content) && set ==> says.last()
                == "Set general.ignore_empty_input = false."@
            &&& enable_changes(content) && !set ==> says.last()
                == "general.ignore_empty_input already false."@
        }),
{
}

/// Disabling changes something exactly if an icon is there to go or the setting is to
/// be restored, and says exactly what it did; a backup is named exactly where there
/// is one.
pub proof fn law_disabling_says_what_it_did(
    path: Seq<char>,
    content: Seq<char>,
    pam: Option<Seq<char>>,
    backup_exists: bool,
)
    ensures
        ({
            let says = disable_says(path, content, pam, backup_exists);
            let icon = any_face(crate::text::lines(content));
            let restores = disable_restores(content, pam);
            &&& disable_changes(content, pam) <==> icon || restores
            &&& !icon && !restores ==> says == seq![
                "Face icon not present and ignore_empty_input unchanged. Nothing to do."@,
            ]
            &&& icon ==> says[0] == "Removed face icon from placeholder_text."@
            &&& restores ==> says[if icon {
                1int
            } else {
                0
            }] == "Restored general.ignore_empty_input = true."@
            &&& (icon || restores) && backup_exists ==> says.last() == "Backup left in place at "@ + (
            path + ".facelock-backup"@) + " (delete manually if no longer needed)."@
            &&& says.len() == if !icon && !restores {
                1
            } else {
                (if icon {
                    1int
                } else {
                    0
                }) + (if restores || fingerprint_coexists(without_icon(content), pam) {
                    1int
                } else {
                    0
                }) + (if backup_exists {
                    1int
                } else {
                    0
                })
            }
        }),
{
}

/// The machine also recognises fingerprints exactly if the service file mentions the
/// module or some line of the configuration switches it on; and the setting is
/// restored exactly where neither holds and it is not as it was.
pub proof fn law_fingerprints_are_known_by_module_or_setting(
    content: Seq<char>,
    pam: Option<Seq<char>>,
    file: Seq<char>,
    i: int,
)
    ensures
        mentions(file, "pam_fprintd.so"@) ==> fingerprint_coexists(content, Some(file)),
        0 <= i < crate::text::lines(content).len() && switches_fingerprint_on(
            crate::text::lines(content)[i],
        ) ==> fingerprint_coexists(content, pam),
        fingerprint_coexists(content, None) ==> exists|k: int|
            0 <= k < crate::text::lines(content).len() && switches_fingerprint_on(
                #[trigger] crate::text::lines(content)[k],
            ),
        disable_restores(content, pam) <==> !fingerprint_coexists(without_icon(content), pam)
            && ignore_empty(without_icon(content)) != Some(true),
{
}

/// The report on the integration tells the icons of the first placeholder, the
/// setting, and the modules that the service file mentions, each as it is; the
/// backup is named exactly where there is one.
pub proof fn law_the_status_tells_what_is_set(
    path: Seq<char>,
    content: Seq<char>,
    pam: Option<Seq<char>>,
    backup_exists: bool,
)
    ensures
        ({
            let says = status_says(path, content, pam, backup_exists);
            let placeholder = first_value(crate::text::lines(content), "placeholder_text"@);
            &&& says.len() == if backup_exists {
                9int
            } else {
                8int
            }
            &&& says[0] == "hyprlock.conf:        "@ + path
            &&& placeholder matches Some(p) ==> says[1] == "placeholder_text:     "@ + p
            &&& placeholder matches Some(p) ==> says[2] == "  face icon ("@ + FACE_ICON@ + "): "@
                + crate::text::yes_no(crate::text::contains(p, FACE_ICON@))
            &&& placeholder matches Some(p) ==> says[3] == "  fingerprint icon ("@ + FP_ICON@
                + "): "@ + crate::text::yes_no(crate::text::contains(p, FP_ICON@))
            &&& ignore_empty(content) == Some(true) ==> says[4] == "ignore_empty_input:   "@
                + "true"@
            &&& ignore_empty(content) == Some(false) ==> says[4] == "ignore_empty_input:   "@
                + "false"@
            &&& ignore_empty(content) is None ==> says[4] == "ignore_empty_input:   "@
                + "<not set>"@
            &&& pam matches Some(c) ==> says[6] == "  pam_facelock.so:    "@ + crate::text::yes_no(
                mentions(c, "pam_facelock.so"@),
            )
            &&& pam matches Some(c) ==> says[7] == "  pam_fprintd.so:     "@ + crate::text::yes_no(
                mentions(c, "pam_fprintd.so"@),
            )
            &&& pam is None ==> says[6] == "  pam_facelock.so:    "@ + "no"@ && says[7]
                == "  pam_fprintd.so:     "@ + "no"@
            &&& backup_exists ==> says[8] == "backup file:          "@ + (path
                + ".facelock-backup"@)
        }),
{
}

/// The configuration lies under `XDG_CONFIG_HOME` where that is set to something,
/// and under `.config` in the home directory where it is not.
pub proof fn law_xdg_outranks_home(xdg: Seq<char>, home: Option<Seq<char>>, h: Seq<char>)
    requires
        xdg.len() > 0,
        xdg.last() != '/',
        h.len() > 0,
        h.last() != '/',
    ensures
        conf_path(Some(xdg), home) == Some(xdg + "/hypr/hyprlock.conf"@),
        conf_path(None, Some(h)) == Some(h + "/.config/hypr/hyprlock.conf"@),
        conf_path(Some(Seq::empty()), Some(h)) == conf_path(None, Some(h)),
        conf_path(None, None) is None,
{
    reveal_strlit("/");
    reveal_strlit("hypr");
    reveal_strlit("hyprlock.conf");
    reveal_strlit(".config");
    reveal_strlit("/hypr/hyprlock.conf");
    reveal_strlit("/.config/hypr/hyprlock.conf");
    let a = crate::paths::join_path(xdg, "hypr"@);
    assert(a.last() == 'r');
    assert(crate::paths::join_path(a, "hyprlock.conf"@) =~= xdg + "/hypr/hyprlock.conf"@);
    let c = crate::paths::join_path(h, ".config"@);
    assert(c.last() == 'g');
    let d = crate::paths::join_path(c, "hypr"@);
    assert(d.last() == 'r');
    assert(crate::paths::join_path(d, "hyprlock.conf"@) =~= h + "/.config/hypr/hyprlock.conf"@);
}

/// Neither edit gives a line a fingerprint icon or takes one away.
pub proof fn law_edits_keep_the_fingerprint_icon(line: Seq<char>)
    requires
        forall|k: int| 0 <= k < line.len() ==> #[trigger] line[k] != '\n',
    ensures
        line_holds(with_face(line), FP_ICON@) == line_holds(line, FP_ICON@),
        line_holds(face_removed_line(line), FP_ICON@) == line_holds(line, FP_ICON@),
{
    assert(one_line(line));
    lemma_with_face(line);
}

} // verus!
