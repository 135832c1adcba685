//! D-Bus activation definitions: whether one delegates to systemd.

use crate::lifecycle::layout::{BUS_NAME, UNIT_NAME};
use crate::text::{
    decimal_of, end_trimmed, lines_of, parted, quoted, same, start_trimmed, starts_with,
};
use vstd::prelude::*;
use vstd::string::*;

verus! {

/// What has been read of a definition so far.
pub struct Reading<S> {
    pub sections: nat,
    pub name: Option<S>,
    pub unit: Option<S>,
    pub runs: bool,
    pub user: bool,
}

/// Nothing read yet.
pub open spec fn nothing_read() -> Reading<Seq<char>> {
    Reading { sections: 0, name: None, unit: None, runs: false, user: false }
}

/// Whether a line says nothing: it is empty or a comment.
pub open spec fn is_silent(line: Seq<char>) -> bool {
    line.len() == 0 || line[0] == '#'
}

/// The header of the one section that a definition has.
pub open spec fn is_header(line: Seq<char>) -> bool {
    line == "[D-BUS Service]"@
}

/// The key and value of an entry.
pub open spec fn entry_of(line: Seq<char>) -> Option<(Seq<char>, Seq<char>)> {
    match crate::text::split_once(line, '=') {
        Some((key, value)) => Some((crate::text::trim_end(key), crate::text::trim_start(value))),
        None => None,
    }
}

/// One more line, or why it is refused.
pub open spec fn read_line(r: Reading<Seq<char>>, line: Seq<char>) -> Result<
    Reading<Seq<char>>,
    Seq<char>,
> {
    if is_silent(line) {
        Ok(r)
    } else if is_header(line) {
        Ok(Reading { sections: r.sections + 1, ..r })
    } else if line[0] == '[' {
        Err("unexpected section "@ + line)
    } else {
        match entry_of(line) {
            None => Err("unparseable line "@ + crate::text::debug_quoted(line)),
            Some((key, value)) => if r.sections == 0 {
                Err("key outside [D-BUS Service]"@)
            } else if key == "Name"@ {
                if r.name is Some {
                    Err("duplicate Name"@)
                } else {
                    Ok(Reading { name: Some(value), ..r })
                }
            } else if key == "SystemdService"@ {
                if r.unit is Some {
                    Err("duplicate SystemdService"@)
                } else {
                    Ok(Reading { unit: Some(value), ..r })
                }
            } else if key == "Exec"@ {
                if r.runs {
                    Err("duplicate Exec"@)
                } else {
                    Ok(Reading { runs: true, ..r })
                }
            } else if key == "User"@ {
                if r.user {
                    Err("duplicate User"@)
                } else {
                    Ok(Reading { user: true, ..r })
                }
            } else {
                Err("unrecognized key "@ + key)
            },
        }
    }
}

/// All lines in order, or why the first refused one is.
pub open spec fn read_lines(lines: Seq<Seq<char>>) -> Result<Reading<Seq<char>>, Seq<char>>
    decreases lines.len(),
{
    if lines.len() == 0 {
        Ok(nothing_read())
    } else {
        match read_lines(lines.drop_last()) {
            Err(e) => Err(e),
            Ok(r) => read_line(r, lines.last()),
        }
    }
}

/// Why what was read does not delegate.
pub open spec fn reading_refusal(r: Reading<Seq<char>>) -> Option<Seq<char>> {
    if r.sections != 1 {
        Some(
            "expected exactly one [D-BUS Service] section, found "@ + crate::text::decimal(
                r.sections,
            ),
        )
    } else {
        match r.name {
            None => Some("no Name key"@),
            Some(name) => if name != BUS_NAME@ {
                Some("Name is "@ + name + ", expected "@ + BUS_NAME@)
            } else {
                match r.unit {
                    None => Some(
                        "no SystemdService key; dbus-daemon would execute the daemon directly"@,
                    ),
                    Some(unit) => if unit != UNIT_NAME@ {
                        Some("SystemdService is "@ + unit + ", expected "@ + UNIT_NAME@)
                    } else {
                        None
                    },
                }
            },
        }
    }
}

/// Why a definition does not delegate to systemd.
pub open spec fn refusal(text: Seq<char>) -> Option<Seq<char>> {
    match read_lines(crate::text::lines(text)) {
        Err(e) => Some(e),
        Ok(r) => reading_refusal(r),
    }
}

fn two(a: &str, b: &str) -> (r: String)
    ensures
        r@ == a@ + b@,
{
    let mut out = String::from_str(a);
    out.append(b);
    out
}

/// Whether a definition delegates activation to systemd, or why not. Keys and
/// sections that are not known are refused rather than guessed about.
pub fn activation_delegates(text: &str) -> (r: Result<(), String>)
    ensures
        match r {
            Ok(_) => refusal(text@) is None,
            Err(e) => refusal(text@) == Some(e@),
        },
{
    let lines = lines_of(text);
    let ghost all = crate::text::lines(text@);
    let mut sections: u64 = 0;
    let mut name: Option<String> = None;
    let mut unit: Option<String> = None;
    let mut runs = false;
    let mut user = false;
    let mut i: usize = 0;
    assert(all.take(0) == Seq::<Seq<char>>::empty());
    while i < lines.len()
        invariant
            i <= lines.len(),
            sections <= i,
            crate::text::texts(lines@) == all,
            all == crate::text::lines(text@),
            read_lines(all.take(i as int)) == Ok::<Reading<Seq<char>>, Seq<char>>(
                Reading {
                    sections: sections as nat,
                    name: crate::text::opt_text(name),
                    unit: crate::text::opt_text(unit),
                    runs,
                    user,
                },
            ),
        decreases lines.len() - i,
    {
        let ghost so_far = Reading {
            sections: sections as nat,
            name: crate::text::opt_text(name),
            unit: crate::text::opt_text(unit),
            runs,
            user,
        };
        let line = lines[i].as_str();
        proof {
            assert(all.take(i as int + 1).drop_last() == all.take(i as int));
            assert(all.take(i as int + 1).last() == line@);
            lemma_refused_line_refuses(all, i as int + 1);
            lemma_first_char(line@);
        }
        if line.is_empty() || starts_with(line, "#") {
        } else if same(line, "[D-BUS Service]") {
            sections += 1;
        } else if starts_with(line, "[") {
            return Err(two("unexpected section ", line));
        } else {
            match parted(line, '=') {
                None => {
                    return Err(two("unparseable line ", quoted(line).as_str()));
                },
                Some((raw_key, raw_value)) => {
                    if sections == 0 {
                        return Err(String::from_str("key outside [D-BUS Service]"));
                    }
                    let key = end_trimmed(raw_key.as_str());
                    let value = start_trimmed(raw_value.as_str());
                    assert(entry_of(line@) == Some((key@, value@)));
                    if same(key.as_str(), "Name") {
                        if name.is_some() {
                            return Err(String::from_str("duplicate Name"));
                        }
                        name = Some(value);
                    } else if same(key.as_str(), "SystemdService") {
                        if unit.is_some() {
                            return Err(String::from_str("duplicate SystemdService"));
                        }
                        unit = Some(value);
                    } else if same(key.as_str(), "Exec") {
                        if runs {
                            return Err(String::from_str("duplicate Exec"));
                        }
                        runs = true;
                    } else if same(key.as_str(), "User") {
                        if user {
                            return Err(String::from_str("duplicate User"));
                        }
                        user = true;
                    } else {
                        return Err(two("unrecognized key ", key.as_str()));
                    }
                },
            }
        }
        i += 1;
    }
    assert(all.take(lines.len() as int) == all);
    if sections != 1 {
        return Err(
            two(
                "expected exactly one [D-BUS Service] section, found ",
                decimal_of(sections).as_str(),
            ),
        );
    }
    match name {
        None => {
            return Err(String::from_str("no Name key"));
        },
        Some(n) => {
            if !same(n.as_str(), BUS_NAME) {
                let mut m = two("Name is ", n.as_str());
                m.append(", expected ");
                m.append(BUS_NAME);
                return Err(m);
            }
        },
    }
    match unit {
        None => Err(
            String::from_str(
                "no SystemdService key; dbus-daemon would execute the daemon directly",
            ),
        ),
        Some(u) => {
            if same(u.as_str(), UNIT_NAME) {
                Ok(())
            } else {
                let mut m = two("SystemdService is ", u.as_str());
                m.append(", expected ");
                m.append(UNIT_NAME);
                Err(m)
            }
        },
    }
}

proof fn lemma_first_char(line: Seq<char>)
    ensures
        crate::text::has_prefix(line, "#"@) <==> line.len() > 0 && line[0] == '#',
        crate::text::has_prefix(line, "["@) <==> line.len() > 0 && line[0] == '[',
{
    reveal_strlit("#");
    reveal_strlit("[");
    if line.len() > 0 {
        assert(line.take(1)[0] == line[0]);
        if line[0] == '#' {
            assert(line.take(1) =~= "#"@);
        }
        if line[0] == '[' {
            assert(line.take(1) =~= "["@);
        }
    }
}

proof fn lemma_refused_line_refuses(lines: Seq<Seq<char>>, n: int)
    requires
        0 <= n <= lines.len(),
    ensures
        read_lines(lines.take(n)) is Err ==> read_lines(lines) == read_lines(lines.take(n)),
    decreases lines.len(),
{
    if n < lines.len() {
        assert(lines.drop_last().take(n) == lines.take(n));
        lemma_refused_line_refuses(lines.drop_last(), n);
    } else {
        assert(lines.take(n) == lines);
    }
}

// ---------------------------------------------------------------------------
// Laws
// ---------------------------------------------------------------------------

/// Whether a line is an entry with this key.
pub open spec fn has_key(line: Seq<char>, key: Seq<char>) -> bool {
    !is_silent(line) && !is_header(line) && (entry_of(line) matches Some((k, _)) && k == key)
}

/// Whether a line may stand in a definition: it says nothing, or is the header,
/// or an entry with one of the four known keys.
pub open spec fn is_known_line(line: Seq<char>) -> bool {
    ||| is_silent(line)
    ||| is_header(line)
    ||| line[0] != '[' && (has_key(line, "Name"@) || has_key(line, "SystemdService"@) || has_key(
        line,
        "Exec"@,
    ) || has_key(line, "User"@))
}

/// Whether some line is an entry with this key and value.
pub open spec fn says(lines: Seq<Seq<char>>, key: Seq<char>, value: Seq<char>) -> bool {
    exists|i: int|
        0 <= i < lines.len() && has_key(#[trigger] lines[i], key) && (entry_of(lines[i]) matches
            Some((_, v)) && v == value)
}

proof fn lemma_reading(lines: Seq<Seq<char>>)
    ensures
        read_lines(lines) matches Ok(r) ==> {
            &&& forall|i: int| 0 <= i < lines.len() ==> is_known_line(#[trigger] lines[i])
            &&& r.name matches Some(n) ==> says(lines, "Name"@, n)
            &&& r.unit matches Some(u) ==> says(lines, "SystemdService"@, u)
            &&& r.name is None ==> forall|i: int|
                0 <= i < lines.len() ==> !has_key(#[trigger] lines[i], "Name"@)
            &&& r.unit is None ==> forall|i: int|
                0 <= i < lines.len() ==> !has_key(#[trigger] lines[i], "SystemdService"@)
            &&& forall|i: int, j: int|
                0 <= i < j < lines.len() && has_key(#[trigger] lines[i], "SystemdService"@)
                    ==> !has_key(#[trigger] lines[j], "SystemdService"@)
            &&& forall|i: int, j: int|
                0 <= i < j < lines.len() && has_key(#[trigger] lines[i], "Name"@) ==> !has_key(
                    #[trigger] lines[j],
                    "Name"@,
                )
        },
    decreases lines.len(),
{
    if lines.len() > 0 {
        let front = lines.drop_last();
        let last = lines.last();
        lemma_reading(front);
        lemma_keys_differ();
        if read_lines(lines) is Ok {
            let before = read_lines(front)->Ok_0;
            let after = read_lines(lines)->Ok_0;
            assert forall|i: int| 0 <= i < front.len() implies front[i] == #[trigger] lines[i] by {}
            assert(lines[lines.len() - 1] == last);
            if before.name is Some {
                let w = choose|w: int|
                    0 <= w < front.len() && has_key(#[trigger] front[w], "Name"@) && (entry_of(
                        front[w],
                    ) matches Some((_, v)) && v == before.name->0);
                assert(lines[w] == front[w]);
                assert(says(lines, "Name"@, before.name->0));
            }
            if before.unit is Some {
                let w = choose|w: int|
                    0 <= w < front.len() && has_key(#[trigger] front[w], "SystemdService"@) && (
                    entry_of(front[w]) matches Some((_, v)) && v == before.unit->0);
                assert(lines[w] == front[w]);
                assert(says(lines, "SystemdService"@, before.unit->0));
            }
            assert forall|i: int, j: int|
                0 <= i < j < lines.len() && has_key(
                    #[trigger] lines[i],
                    "SystemdService"@,
                ) implies !has_key(#[trigger] lines[j], "SystemdService"@) by {
                assert(front[i] == lines[i]);
                if j < front.len() {
                    assert(front[j] == lines[j]);
                } else {
                    assert(before.unit is Some);
                }
            }
            assert forall|i: int, j: int|
                0 <= i < j < lines.len() && has_key(#[trigger] lines[i], "Name"@) implies !has_key(
                #[trigger] lines[j],
                "Name"@,
            ) by {
                assert(front[i] == lines[i]);
                if j < front.len() {
                    assert(front[j] == lines[j]);
                } else {
                    assert(before.name is Some);
                }
            }
        }
    }
}

proof fn lemma_keys_differ()
    ensures
        "Name"@ != "SystemdService"@,
        "Name"@ != "Exec"@,
        "Name"@ != "User"@,
        "SystemdService"@ != "Exec"@,
        "SystemdService"@ != "User"@,
{
    reveal_strlit("Name");
    reveal_strlit("SystemdService");
    reveal_strlit("Exec");
    reveal_strlit("User");
    assert("Name"@[0] == 'N');
    assert("Exec"@[0] == 'E');
    assert("User"@[0] == 'U');
    assert("SystemdService"@[0] == 'S');
}

/// A definition that is accepted holds nothing but known lines, names the bus
/// name, and delegates to the unit and to no other: every entry for either key
/// is the one that was accepted.
pub proof fn law_accepted_definition_delegates(text: Seq<char>)
    requires
        refusal(text) is None,
    ensures
        ({
            let lines = crate::text::lines(text);
            &&& forall|i: int| 0 <= i < lines.len() ==> is_known_line(#[trigger] lines[i])
            &&& says(lines, "Name"@, BUS_NAME@)
            &&& says(lines, "SystemdService"@, UNIT_NAME@)
            &&& forall|i: int|
                0 <= i < lines.len() && has_key(#[trigger] lines[i], "SystemdService"@)
                    ==> entry_of(lines[i]) == Some(("SystemdService"@, UNIT_NAME@))
        }),
{
    let lines = crate::text::lines(text);
    lemma_reading(lines);
    let w = choose|w: int|
        0 <= w < lines.len() && has_key(#[trigger] lines[w], "SystemdService"@) && (entry_of(
            lines[w],
        ) matches Some((_, v)) && v == UNIT_NAME@);
    assert forall|i: int|
        0 <= i < lines.len() && has_key(#[trigger] lines[i], "SystemdService"@) implies entry_of(
        lines[i],
    ) == Some(("SystemdService"@, UNIT_NAME@)) by {
        if i < w {
            assert(!has_key(lines[w], "SystemdService"@));
        } else if w < i {
            assert(!has_key(lines[i], "SystemdService"@));
        }
    }
}

proof fn lemma_entry(key: Seq<char>, value: Seq<char>)
    requires
        key.len() > 0,
        !key.contains('='),
        !crate::text::is_space(key.last()),
        value.len() > 0 ==> !crate::text::is_space(value[0]),
    ensures
        entry_of(key + seq!['='] + value) == Some((key, value)),
{
    let line = key + seq!['='] + value;
    let mark = seq!['='];
    crate::text::law_find_is_leftmost(line, mark, key, value);
    let n = crate::text::find(line, mark)->0 as int;
    assert(line.subrange(n, n + 1)[0] == line[n]);
    if n < key.len() {
        assert(key[n] == '=');
        assert(key.contains('='));
    }
    assert(line.take(n) =~= key);
    assert(line.skip(n + 1) =~= value);
}

/// A definition that names the bus name and the unit under the one header is
/// accepted, whatever it says of how the bus would run the daemon and as whom.
pub proof fn law_a_delegating_definition_is_accepted(
    text: Seq<char>,
    runs: Seq<char>,
    user: Seq<char>,
)
    requires
        runs.len() > 0 ==> !crate::text::is_space(runs[0]),
        user.len() > 0 ==> !crate::text::is_space(user[0]),
        crate::text::lines(text) == seq![
            "[D-BUS Service]"@,
            "Name"@ + seq!['='] + BUS_NAME@,
            "Exec"@ + seq!['='] + runs,
            "User"@ + seq!['='] + user,
            "SystemdService"@ + seq!['='] + UNIT_NAME@,
        ],
    ensures
        refusal(text) is None,
{
    reveal_strlit("[D-BUS Service]");
    reveal_strlit("Name");
    reveal_strlit("Exec");
    reveal_strlit("User");
    reveal_strlit("SystemdService");
    reveal_strlit("org.facelock.Daemon");
    reveal_strlit("facelock-daemon.service");
    lemma_keys_differ();
    assert("Exec"@[0] == 'E' && "User"@[0] == 'U');
    lemma_entry("Name"@, BUS_NAME@);
    lemma_entry("Exec"@, runs);
    lemma_entry("User"@, user);
    lemma_entry("SystemdService"@, UNIT_NAME@);
    let lines = crate::text::lines(text);
    let l1 = lines.drop_last();
    let l2 = l1.drop_last();
    let l3 = l2.drop_last();
    let l4 = l3.drop_last();
    let l5 = l4.drop_last();
    assert(l5 =~= Seq::<Seq<char>>::empty());
    assert(l4.last() == "[D-BUS Service]"@);
    assert(l3.last() == "Name"@ + seq!['='] + BUS_NAME@);
    assert(l2.last() == "Exec"@ + seq!['='] + runs);
    assert(l1.last() == "User"@ + seq!['='] + user);
    assert(l3.last()[0] == 'N' && l2.last()[0] == 'E' && l1.last()[0] == 'U' && lines.last()[0]
        == 'S');
    assert("[D-BUS Service]"@[0] == '[');
    reveal_with_fuel(read_lines, 6);
    assert(read_lines(l4) == Ok::<Reading<Seq<char>>, Seq<char>>(
        Reading { sections: 1, ..nothing_read() },
    ));
    assert(read_lines(l3) is Ok);
    assert(read_lines(l2) is Ok);
    assert(read_lines(l1) is Ok);
}

/// Blank lines and comments make no difference.
pub proof fn law_silence_makes_no_difference(lines: Seq<Seq<char>>, comment: Seq<char>)
    requires
        comment.len() == 0 || comment[0] == '#',
    ensures
        read_lines(lines.push(comment)) == read_lines(lines),
{
    assert(lines.push(comment).drop_last() =~= lines);
}

/// A definition with a line that is not known is refused.
pub proof fn law_unknown_line_refuses(text: Seq<char>, i: int)
    requires
        0 <= i < crate::text::lines(text).len(),
        !is_known_line(crate::text::lines(text)[i]),
    ensures
        refusal(text) is Some,
{
    lemma_reading(crate::text::lines(text));
}

/// A definition without a `SystemdService` entry is refused: the bus would
/// execute the daemon directly.
pub proof fn law_direct_execution_refuses(text: Seq<char>)
    requires
        forall|i: int|
            0 <= i < crate::text::lines(text).len() ==> !has_key(
                #[trigger] crate::text::lines(text)[i],
                "SystemdService"@,
            ),
    ensures
        refusal(text) is Some,
{
    lemma_reading(crate::text::lines(text));
}

} // verus!
