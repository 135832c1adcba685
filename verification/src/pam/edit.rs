//! The text of a service file: which lines are facelock's, and what adding
//! and removing them makes of a file.

use crate::text::{
    chars_of, joined, lines_of, starts_with, string_of, trim_start_chars, trimmed,
};
use vstd::prelude::*;
use vstd::string::*;

verus! {

/// The line that is added and removed. Matching is by module name rather than
/// by these characters, see [`is_facelock_pam_line`].
pub const PAM_LINE: &'static str = "auth      sufficient pam_facelock.so";

/// Whether a line of a service file loads the facelock module: its name occurs
/// and the line is no comment.
pub open spec fn is_facelock_line(line: Seq<char>) -> bool {
    let t = crate::text::trim(line);
    !crate::text::has_prefix(t, "#"@) && crate::text::contains(t, "pam_facelock.so"@)
}

/// Whether a line begins an `auth` rule.
pub open spec fn is_auth_line(line: Seq<char>) -> bool {
    crate::text::has_prefix(crate::text::trim_start(line), "auth"@)
}

/// Whether a file's content carries a facelock line.
pub open spec fn carries_line(content: Seq<char>) -> bool {
    exists|i: int|
        0 <= i < crate::text::lines(content).len() && is_facelock_line(
            #[trigger] crate::text::lines(content)[i],
        )
}

/// Whether a file's content has an `auth` rule.
pub open spec fn has_auth_rule(content: Seq<char>) -> bool {
    exists|i: int|
        0 <= i < crate::text::lines(content).len() && is_auth_line(
            #[trigger] crate::text::lines(content)[i],
        )
}

/// Where the first `auth` rule stands; the number of lines if there is none.
pub open spec fn first_auth(lines: Seq<Seq<char>>) -> nat
    decreases lines.len(),
{
    if lines.len() == 0 || is_auth_line(lines[0]) {
        0
    } else {
        1 + first_auth(lines.skip(1))
    }
}

/// Where the line goes: above the first `auth` rule, at the very top if there
/// is none.
pub open spec fn insertion_point(lines: Seq<Seq<char>>) -> int {
    if first_auth(lines) < lines.len() {
        first_auth(lines) as int
    } else {
        0
    }
}

/// The content with the line inserted. A file keeps or keeps lacking the line
/// feed at its end.
pub open spec fn added(content: Seq<char>) -> Seq<char> {
    let lines = crate::text::lines(content);
    crate::text::join(lines.insert(insertion_point(lines), PAM_LINE@), seq!['\n'])
        + crate::text::feed(crate::text::ends_feed(content))
}

/// The content without any facelock line. A file keeps or keeps lacking the
/// line feed at its end.
pub open spec fn removed(content: Seq<char>) -> Seq<char> {
    crate::text::join(
        crate::text::lines(content).filter(|l: Seq<char>| !is_facelock_line(l)),
        seq!['\n'],
    ) + crate::text::feed(crate::text::ends_feed(content))
}

/// Whether a line of a service file loads the facelock module, whatever its
/// spacing. A commented-out line does not.
pub fn is_facelock_pam_line(line: &str) -> (r: bool)
    ensures
        r == is_facelock_line(line@),
{
    let t = trimmed(line);
    if starts_with(t.as_str(), "#") {
        return false;
    }
    crate::text::holds(t.as_str(), "pam_facelock.so")
}

/// Whether a line begins an `auth` rule, above which the facelock line goes.
pub fn has_auth_keyword(line: &str) -> (r: bool)
    ensures
        r == is_auth_line(line@),
{
    let v = chars_of(line);
    let t = trim_start_chars(&v);
    starts_with(string_of(&t).as_str(), "auth")
}

/// Whether a file's content carries a facelock line.
pub fn has_facelock_line(content: &str) -> (r: bool)
    ensures
        r == carries_line(content@),
{
    let lines = lines_of(content);
    let ghost all = crate::text::lines(content@);
    let mut i: usize = 0;
    while i < lines.len()
        invariant
            i <= lines.len(),
            all == crate::text::lines(content@),
            crate::text::texts(lines@) == all,
            forall|k: int| 0 <= k < i ==> !is_facelock_line(#[trigger] all[k]),
        decreases lines.len() - i,
    {
        assert(all[i as int] == lines[i as int]@);
        if is_facelock_pam_line(lines[i].as_str()) {
            return true;
        }
        i += 1;
    }
    false
}

/// Whether the line would go above an `auth` rule, rather than to the top.
pub fn inserts_before_auth(content: &str) -> (r: bool)
    ensures
        r == has_auth_rule(content@),
{
    let lines = lines_of(content);
    let ghost all = crate::text::lines(content@);
    let mut i: usize = 0;
    while i < lines.len()
        invariant
            i <= lines.len(),
            all == crate::text::lines(content@),
            crate::text::texts(lines@) == all,
            forall|k: int| 0 <= k < i ==> !is_auth_line(#[trigger] all[k]),
        decreases lines.len() - i,
    {
        assert(all[i as int] == lines[i as int]@);
        if has_auth_keyword(lines[i].as_str()) {
            return true;
        }
        i += 1;
    }
    false
}

fn ends_with_feed(content: &str) -> (r: bool)
    ensures
        r == crate::text::ends_feed(content@),
{
    let v = chars_of(content);
    v.len() > 0 && v[v.len() - 1] == '\n'
}

fn text_of_lines(lines: &Vec<String>, ended: bool) -> (r: String)
    ensures
        r@ == crate::text::join(crate::text::texts(lines@), seq!['\n']) + crate::text::feed(ended),
{
    proof {
        reveal_strlit("\n");
        assert("\n"@ =~= seq!['\n']);
    }
    let mut out = joined(lines, "\n");
    if ended {
        out.append("\n");
    }
    assert(out@ == crate::text::join(crate::text::texts(lines@), seq!['\n']) + crate::text::feed(
        ended,
    ));
    out
}

/// Insert [`PAM_LINE`] above the first `auth` rule, or at the very top if
/// there is none.
pub fn with_line_inserted(content: &str) -> (r: String)
    ensures
        r@ == added(content@),
{
    let mut lines = lines_of(content);
    let ghost all = crate::text::lines(content@);
    let mut at: usize = 0;
    assert(all.skip(0) == all);
    while at < lines.len() && !has_auth_keyword(lines[at].as_str())
        invariant
            at <= lines.len(),
            crate::text::texts(lines@) == all,
            first_auth(all) == at + first_auth(all.skip(at as int)),
        decreases lines.len() - at,
    {
        assert(all.skip(at as int)[0] == lines[at as int]@);
        assert(all.skip(at as int).skip(1) == all.skip(at as int + 1));
        at += 1;
    }
    if at < lines.len() {
        assert(all.skip(at as int)[0] == lines[at as int]@);
    } else {
        at = 0;
    }
    assert(at == insertion_point(all));
    lines.insert(at, String::from_str(PAM_LINE));
    assert(crate::text::texts(lines@) == all.insert(at as int, PAM_LINE@));
    text_of_lines(&lines, ends_with_feed(content))
}

/// Drop every facelock line.
pub fn with_line_removed(content: &str) -> (r: String)
    ensures
        r@ == removed(content@),
{
    let lines = lines_of(content);
    let ghost all = crate::text::lines(content@);
    let ghost keep = |l: Seq<char>| !is_facelock_line(l);
    let mut kept: Vec<String> = Vec::new();
    let mut i: usize = 0;
    proof {
        reveal(Seq::filter);
        assert(crate::text::texts(kept@) == all.take(0).filter(keep));
    }
    while i < lines.len()
        invariant
            i <= lines.len(),
            keep == (|l: Seq<char>| !is_facelock_line(l)),
            crate::text::texts(lines@) == all,
            crate::text::texts(kept@) == all.take(i as int).filter(keep),
        decreases lines.len() - i,
    {
        let ghost upto = all.take(i as int + 1);
        let ghost before = crate::text::texts(kept@);
        proof {
            reveal(Seq::filter);
            assert(upto.drop_last() == all.take(i as int));
            assert(upto.last() == lines[i as int]@);
        }
        if !is_facelock_pam_line(lines[i].as_str()) {
            kept.push(lines[i].clone());
            assert(crate::text::texts(kept@) == before.push(lines[i as int]@));
        }
        i += 1;
    }
    assert(all.take(lines.len() as int) == all);
    text_of_lines(&kept, ends_with_feed(content))
}

/// `chrono::Local::now` formatted as year, month and day. Which day it is depends
/// on the clock and the time zone of the machine, so only its form is stated: a
/// year of at least four characters, then the month and the day in two digits
/// each, behind hyphens.
#[verifier::external_body]
pub(crate) fn today() -> (r: String)
    ensures
        crate::text::is_day(r@),
{
    chrono::Local::now().format("%Y-%m-%d").to_string()
}

/// The comment lines that a copy of a vendor file carries above everything
/// else: what it was forked from, by which version, on which day.
pub open spec fn provenance(vendor: Seq<char>, version: Seq<char>, day: Seq<char>) -> Seq<char> {
    "# Copied from "@ + vendor + " by facelock "@ + version + " on "@ + day + ".\n"@
        + "# This local override shadows the vendor file and will not track vendor updates.\n"@
}

/// The comment lines that a copy of a vendor file carries, dated today.
pub fn provenance_header(vendor: &str, version: &str) -> (r: String)
    ensures
        exists|day: Seq<char>|
            crate::text::is_day(day) && r@ == #[trigger] provenance(vendor@, version@, day),
{
    let day = today();
    dated_provenance_header(vendor, version, day.as_str())
}

/// The comment lines that a copy of a vendor file carries, with the given date.
pub fn dated_provenance_header(vendor: &str, version: &str, day: &str) -> (r: String)
    ensures
        r@ == provenance(vendor@, version@, day@),
{
    let mut out = String::from_str("# Copied from ");
    out.append(vendor);
    out.append(" by facelock ");
    out.append(version);
    out.append(" on ");
    out.append(day);
    out.append(".\n");
    out.append(
        "# This local override shadows the vendor file and will not track vendor updates.\n",
    );
    out
}

// ---------------------------------------------------------------------------
// Laws
// ---------------------------------------------------------------------------

proof fn lemma_pam_line()
    ensures
        is_facelock_line(PAM_LINE@),
        is_auth_line(PAM_LINE@),
        PAM_LINE@.len() > 0,
        PAM_LINE@.last() != '\r',
        forall|k: int| 0 <= k < PAM_LINE@.len() ==> #[trigger] PAM_LINE@[k] != '\n',
{
    reveal_strlit("auth      sufficient pam_facelock.so");
    reveal_strlit("pam_facelock.so");
    reveal_strlit("auth");
    reveal_strlit("#");
    let line = PAM_LINE@;
    assert(crate::text::trim_start(line) == line);
    assert(crate::text::trim_end(line) == line);
    assert(line.take(4) =~= "auth"@);
    assert(line.take(1)[0] == 'a');
    crate::text::lemma_find(line, "pam_facelock.so"@);
    assert(line.skip(21).take(15) =~= "pam_facelock.so"@);
    assert(crate::text::has_prefix(line.skip(21), "pam_facelock.so"@));
}

proof fn lemma_insert_line(lines: Seq<Seq<char>>, at: int)
    requires
        crate::text::one_line_each(lines),
        0 <= at <= lines.len(),
    ensures
        crate::text::one_line_each(lines.insert(at, PAM_LINE@)),
{
    lemma_pam_line();
    let all = lines.insert(at, PAM_LINE@);
    assert forall|i: int, k: int| 0 <= i < all.len() && 0 <= k < all[i].len() implies #[trigger]
        all[i][k] != '\n' by {
        if i < at {
            assert(lines[i][k] != '\n');
        } else if i > at {
            assert(lines[i - 1][k] != '\n');
        }
    }
}

proof fn lemma_first_auth(lines: Seq<Seq<char>>)
    ensures
        first_auth(lines) <= lines.len(),
        first_auth(lines) < lines.len() <==> exists|i: int|
            0 <= i < lines.len() && is_auth_line(#[trigger] lines[i]),
        first_auth(lines) < lines.len() ==> is_auth_line(lines[first_auth(lines) as int]),
        forall|i: int| 0 <= i < first_auth(lines) ==> !is_auth_line(#[trigger] lines[i]),
    decreases lines.len(),
{
    if lines.len() > 0 && !is_auth_line(lines[0]) {
        let rest = lines.skip(1);
        lemma_first_auth(rest);
        assert forall|i: int| 0 <= i < first_auth(lines) implies !is_auth_line(
            #[trigger] lines[i],
        ) by {
            if i > 0 {
                assert(rest[i - 1] == lines[i]);
            }
        }
        if exists|i: int| 0 <= i < lines.len() && is_auth_line(#[trigger] lines[i]) {
            let i = choose|i: int| 0 <= i < lines.len() && is_auth_line(#[trigger] lines[i]);
            assert(rest[i - 1] == lines[i]);
        }
        if first_auth(rest) < rest.len() {
            let i = choose|i: int| 0 <= i < rest.len() && is_auth_line(#[trigger] rest[i]);
            assert(lines[i + 1] == rest[i]);
        }
    }
}

/// The lines that a reader finds after an insertion are the lines before it
/// with the facelock line among them.
proof fn lemma_lines_after_add(content: Seq<char>)
    ensures
        ({
            let lines = crate::text::lines(content);
            crate::text::lines(added(content)) == crate::text::as_read(
                lines.insert(insertion_point(lines), PAM_LINE@),
                crate::text::ends_feed(content),
            )
        }),
{
    let lines = crate::text::lines(content);
    lemma_first_auth(lines);
    crate::text::lemma_lines(content);
    lemma_pam_line();
    let at = insertion_point(lines);
    let all = lines.insert(at, PAM_LINE@);
    lemma_insert_line(lines, at);
    if lines.len() > 0 {
        assert(all.last() == lines.last());
    } else {
        assert(all.last() == PAM_LINE@);
    }
    if content.len() == 0 {
        assert(!crate::text::ends_feed(content));
    }
    crate::text::lemma_lines_of_join(all, crate::text::ends_feed(content));
}

proof fn lemma_auth_ignores_cr(line: Seq<char>)
    requires
        line.len() > 0,
        line.last() == '\r',
    ensures
        is_auth_line(line.drop_last()) == is_auth_line(line),
    decreases line.len(),
{
    reveal_strlit("auth");
    assert("auth"@.len() == 4 && "auth"@[3] == 'h');
    let short = line.drop_last();
    if crate::text::is_space(line[0]) {
        if line.len() == 1 {
            assert(line.skip(1) =~= short);
        } else {
            assert(line.skip(1).drop_last() =~= short.skip(1));
            assert(short[0] == line[0]);
            lemma_auth_ignores_cr(line.skip(1));
        }
    } else {
        assert(short[0] == line[0]);
        if line.len() >= 4 {
            if line.len() == 4 {
                assert(line.take(4)[3] == '\r');
            } else {
                assert(short.take(4) =~= line.take(4));
            }
        }
    }
}

/// The line goes above the first `auth` rule, so that the face is tried before
/// anything else authenticates; in a file without one it goes to the very top.
/// No other line is touched.
pub proof fn law_the_line_goes_above_the_first_auth_rule(content: Seq<char>)
    ensures
        ({
            let before = crate::text::lines(content);
            let end = if content.len() > 0 && content.last() == '\n' {
                seq!['\n']
            } else {
                Seq::empty()
            };
            exists|at: int|
                {
                    &&& 0 <= at <= before.len()
                    &&& added(content) == #[trigger] crate::text::join(
                        before.insert(at, PAM_LINE@),
                        seq!['\n'],
                    ) + end
                    &&& forall|i: int| 0 <= i < at ==> !is_auth_line(#[trigger] before[i])
                    &&& (exists|i: int| 0 <= i < before.len() && is_auth_line(#[trigger] before[i]))
                        ==> at < before.len() && is_auth_line(before[at])
                    &&& !(exists|i: int|
                        0 <= i < before.len() && is_auth_line(#[trigger] before[i])) ==> at == 0
                }
        }),
{
    let lines = crate::text::lines(content);
    lemma_first_auth(lines);
    let at = insertion_point(lines);
    let text = crate::text::join(lines.insert(at, PAM_LINE@), seq!['\n']);
}

/// What a reader finds after an insertion: no line before the inserted one is an
/// `auth` rule, and the line right behind it is one wherever the file had any.
pub proof fn law_the_face_is_tried_first(content: Seq<char>)
    ensures
        ({
            let before = crate::text::lines(content);
            let after = crate::text::lines(added(content));
            exists|at: int|
                {
                    &&& 0 <= at < after.len()
                    &&& after.len() == before.len() + 1
                    &&& #[trigger] after[at] == PAM_LINE@
                    &&& forall|i: int| 0 <= i < at ==> !is_auth_line(#[trigger] after[i])
                    &&& (exists|i: int| 0 <= i < before.len() && is_auth_line(#[trigger] before[i]))
                        ==> at + 1 < after.len() && is_auth_line(after[at + 1])
                }
        }),
{
    let before = crate::text::lines(content);
    let after = crate::text::lines(added(content));
    lemma_first_auth(before);
    lemma_lines_after_add(content);
    lemma_pam_line();
    let at = insertion_point(before);
    let all = before.insert(at, PAM_LINE@);
    assert(after[at] == PAM_LINE@);
    assert forall|i: int| 0 <= i < all.len() implies is_auth_line(#[trigger] after[i])
        == is_auth_line(all[i]) by {
        if all[i].len() > 0 && all[i].last() == '\r' {
            lemma_auth_ignores_cr(all[i]);
        }
    }
    assert forall|i: int| 0 <= i < at implies !is_auth_line(#[trigger] after[i]) by {
        assert(all[i] == before[i]);
    }
    if first_auth(before) < before.len() {
        assert(all[at + 1] == before[at]);
        assert(is_auth_line(after[at + 1]));
    }
}

/// An `auth` rule is a line whose first characters behind its indent are `auth`.
pub proof fn law_auth_rules_begin_with_auth(line: Seq<char>)
    ensures
        is_auth_line(line) <==> exists|k: int|
            0 <= k && k + 4 <= line.len() && #[trigger] line.subrange(k, k + 4) == seq![
                'a',
                'u',
                't',
                'h',
            ] && (forall|i: int| 0 <= i < k ==> crate::text::is_space(#[trigger] line[i])),
{
    reveal_strlit("auth");
    assert("auth"@ =~= seq!['a', 'u', 't', 'h']);
    crate::text::lemma_trim_start(line);
    let t = crate::text::trim_start(line);
    let n = line.len() - t.len();
    if is_auth_line(line) {
        assert(line.subrange(n, n + 4) =~= t.take(4));
    }
    if exists|k: int|
        0 <= k && k + 4 <= line.len() && #[trigger] line.subrange(k, k + 4) == seq![
            'a',
            'u',
            't',
            'h',
        ] && (forall|i: int| 0 <= i < k ==> crate::text::is_space(#[trigger] line[i])) {
        let k = choose|k: int|
            0 <= k && k + 4 <= line.len() && #[trigger] line.subrange(k, k + 4) == seq![
                'a',
                'u',
                't',
                'h',
            ] && (forall|i: int| 0 <= i < k ==> crate::text::is_space(#[trigger] line[i]));
        assert(line.subrange(k, k + 4)[0] == line[k]);
        assert(line[k] == 'a');
        crate::text::law_white_space_is_invisible('a');
        if k < n {
            assert(crate::text::is_space(line[k]));
        } else if n < k {
            assert(crate::text::is_space(line[n]));
            assert(t[0] == line[n]);
        }
        assert(t.take(4) =~= line.subrange(k, k + 4));
    }
}

/// A line loads the facelock module exactly if the module's name stands in it and
/// its first visible character is no number sign.
pub proof fn law_facelock_lines_name_the_module(line: Seq<char>)
    ensures
        is_facelock_line(line) <==> exists|j: int, k: int|
            {
                &&& 0 <= j <= k
                &&& k + 15 <= line.len()
                &&& #[trigger] line.subrange(k, k + 15) == "pam_facelock.so"@
                &&& !crate::text::is_space(#[trigger] line[j])
                &&& line[j] != '#'
                &&& forall|i: int| 0 <= i < j ==> crate::text::is_space(#[trigger] line[i])
            },
{
    reveal_strlit("pam_facelock.so");
    reveal_strlit("#");
    let name = "pam_facelock.so"@;
    assert(name.len() == 15);
    assert("#"@ =~= seq!['#']);
    assert forall|i: int| 0 <= i < 15 implies !crate::text::is_space(#[trigger] name[i]) by {}
    let t = crate::text::trim(line);
    crate::text::law_every_text_is_trimmed(line);
    let (a, b) = choose|a: int, b: int|
        0 <= a <= b <= line.len() && t == #[trigger] line.subrange(a, b) && (forall|k: int|
            0 <= k < a || b <= k < line.len() ==> crate::text::is_space(#[trigger] line[k]));
    crate::text::law_contained_stands_somewhere(t, name);
    if is_facelock_line(line) {
        let k = choose|k: int|
            0 <= k && k + name.len() <= t.len() && #[trigger] t.subrange(k, k + name.len()) == name;
        assert(line.subrange(a + k, a + k + 15) =~= t.subrange(k, k + 15));
        assert(t[0] == line[a]);
        assert(t.take(1)[0] == t[0]);
        if t[0] == '#' {
            assert(t.take(1) =~= "#"@);
        }
        assert(line.subrange(a + k, (a + k) + 15) == "pam_facelock.so"@);
        assert(!crate::text::is_space(line[a]));
    }
    if exists|j: int, k: int|
        {
            &&& 0 <= j <= k
            &&& k + 15 <= line.len()
            &&& #[trigger] line.subrange(k, k + 15) == "pam_facelock.so"@
            &&& !crate::text::is_space(#[trigger] line[j])
            &&& line[j] != '#'
            &&& forall|i: int| 0 <= i < j ==> crate::text::is_space(#[trigger] line[i])
        } {
        let (j, k) = choose|j: int, k: int|
            {
                &&& 0 <= j <= k
                &&& k + 15 <= line.len()
                &&& #[trigger] line.subrange(k, k + 15) == "pam_facelock.so"@
                &&& !crate::text::is_space(#[trigger] line[j])
                &&& line[j] != '#'
                &&& forall|i: int| 0 <= i < j ==> crate::text::is_space(#[trigger] line[i])
            };
        let end = k + 14;
        assert(line.subrange(k, k + 15)[14] == line[end]);
        assert(line.subrange(k, k + 15)[14] == name[14]);
        assert(!crate::text::is_space(line[end]));
        assert(a <= j && end < b);
        assert(j <= a) by {
            if a < j {
                assert(crate::text::is_space(line[a]));
                assert(t[0] == line[a]);
            }
        }
        assert(t.subrange(k - a, k - a + name.len()) =~= line.subrange(k, k + 15));
        assert(t[0] == line[a]);
        if crate::text::has_prefix(t, "#"@) {
            assert(t.take(1)[0] == '#');
        }
    }
}

/// A file without a facelock line is left by a removal as it is.
pub proof fn law_removal_keeps_every_other_file(content: Seq<char>)
    requires
        !carries_line(content),
        crate::text::plain_endings(content),
    ensures
        removed(content) == content,
{
    let lines = crate::text::lines(content);
    let keep = |l: Seq<char>| !is_facelock_line(l);
    assert forall|i: int| 0 <= i < lines.len() implies keep(#[trigger] lines[i]) by {}
    lemma_filter_all(lines, keep);
    crate::text::lemma_join_of_lines(content);
}

/// A facelock line makes no difference to what a removal leaves of a file: the
/// file with it and the file without it come to the same.
pub proof fn law_a_facelock_line_leaves_no_trace(
    front: Seq<Seq<char>>,
    line: Seq<char>,
    back: Seq<Seq<char>>,
)
    requires
        crate::text::one_line_each(front + seq![line] + back),
        forall|i: int|
            0 <= i < (front + seq![line] + back).len() ==> !((#[trigger] (front + seq![line]
                + back)[i]).len() > 0 && (front + seq![line] + back)[i].last() == '\r'),
        front.len() + back.len() > 0,
        is_facelock_line(line),
    ensures
        removed(crate::text::join(front + seq![line] + back, seq!['\n']) + seq!['\n']) == removed(
            crate::text::join(front + back, seq!['\n']) + seq!['\n'],
        ),
{
    let all = front + seq![line] + back;
    let rest = front + back;
    let keep = |l: Seq<char>| !is_facelock_line(l);
    assert forall|i: int| 0 <= i < rest.len() implies exists|j: int|
        0 <= j < all.len() && #[trigger] rest[i] == all[j] by {
        if i < front.len() {
            assert(rest[i] == all[i]);
        } else {
            assert(rest[i] == all[i + 1]);
        }
    }
    assert(crate::text::one_line_each(rest)) by {
        assert forall|i: int, k: int| 0 <= i < rest.len() && 0 <= k < rest[i].len() implies #[trigger]
            rest[i][k] != '\n' by {
            let j = choose|j: int| 0 <= j < all.len() && rest[i] == all[j];
            assert(all[j][k] != '\n');
        }
    }
    crate::text::lemma_lines_of_join(all, true);
    crate::text::lemma_lines_of_join(rest, true);
    assert(crate::text::as_read(all, true) =~= all);
    assert(crate::text::as_read(rest, true) =~= rest) by {
        assert forall|i: int| 0 <= i < rest.len() implies #[trigger] crate::text::as_read(
            rest,
            true,
        )[i] == rest[i] by {
            let j = choose|j: int| 0 <= j < all.len() && rest[i] == all[j];
            assert(!(all[j].len() > 0 && all[j].last() == '\r'));
        }
    }
    Seq::filter_distributes_over_add(front, seq![line], keep);
    Seq::filter_distributes_over_add(front + seq![line], back, keep);
    Seq::filter_distributes_over_add(front, back, keep);
    assert(seq![line].filter(keep) =~= Seq::<Seq<char>>::empty()) by {
        reveal_with_fuel(Seq::filter, 3);
        assert(seq![line].drop_last() =~= Seq::<Seq<char>>::empty());
        assert(seq![line].last() == line);
        assert(!keep(line));
    }
    assert(all.filter(keep) =~= rest.filter(keep));
    assert((crate::text::join(all, seq!['\n']) + seq!['\n']).last() == '\n');
    assert((crate::text::join(rest, seq!['\n']) + seq!['\n']).last() == '\n');
}

/// After an insertion the file carries the line.
pub proof fn law_added_file_carries_the_line(content: Seq<char>)
    ensures
        carries_line(added(content)),
{
    let lines = crate::text::lines(content);
    lemma_first_auth(lines);
    lemma_lines_after_add(content);
    lemma_pam_line();
    let at = insertion_point(lines);
    let after = crate::text::lines(added(content));
    assert(after[at] == PAM_LINE@);
    assert(is_facelock_line(after[at]));
}

/// After a removal the file carries no facelock line.
pub proof fn law_removed_file_carries_no_line(content: Seq<char>)
    ensures
        !carries_line(removed(content)),
{
    let lines = crate::text::lines(content);
    let keep = |l: Seq<char>| !is_facelock_line(l);
    let kept = lines.filter(keep);
    let ended = crate::text::ends_feed(content);
    crate::text::lemma_lines(content);
    lines.lemma_filter_len(keep);
    lemma_filter_keeps(lines, keep);
    assert(crate::text::one_line_each(kept)) by {
        assert forall|i: int, k: int| 0 <= i < kept.len() && 0 <= k < kept[i].len() implies #[trigger]
            kept[i][k] != '\n' by {
            assert(lines.contains(kept[i]));
            let j = choose|j: int| 0 <= j < lines.len() && lines[j] == kept[i];
            assert(lines[j][k] != '\n');
        }
    }
    let after = crate::text::lines(removed(content));
    assert forall|i: int| 0 <= i < after.len() implies !is_facelock_line(#[trigger] after[i]) by {
        let line = after[i];
        assert(after.contains(line));
        crate::text::lemma_lines_of_join_are_known(kept, ended, line);
        if line.len() == 0 {
            reveal_strlit("pam_facelock.so");
        } else if kept.contains(line) {
            let j = choose|j: int| 0 <= j < kept.len() && kept[j] == line;
            assert(keep(kept[j]));
        } else {
            let j = choose|j: int| 0 <= j < kept.len() && line == crate::text::strip_cr(
                #[trigger] kept[j],
            );
            assert(keep(kept[j]));
            if kept[j].len() > 0 && kept[j].last() == '\r' {
                crate::text::lemma_trim_ignores_last_space(kept[j]);
            }
        }
    }
}

proof fn lemma_filter_keeps(s: Seq<Seq<char>>, keep: spec_fn(Seq<char>) -> bool)
    ensures
        forall|i: int| 0 <= i < s.filter(keep).len() ==> keep(#[trigger] s.filter(keep)[i]),
        forall|i: int| 0 <= i < s.filter(keep).len() ==> s.contains(#[trigger] s.filter(keep)[i]),
    decreases s.len(),
{
    reveal(Seq::filter);
    if s.len() > 0 {
        let front = s.drop_last();
        lemma_filter_keeps(front, keep);
        assert forall|i: int| 0 <= i < s.filter(keep).len() implies keep(
            #[trigger] s.filter(keep)[i],
        ) && s.contains(s.filter(keep)[i]) by {
            if i < front.filter(keep).len() {
                assert(s.filter(keep)[i] == front.filter(keep)[i]);
                let j = choose|j: int| 0 <= j < front.len() && front[j] == front.filter(keep)[i];
                assert(s[j] == front[j]);
            } else {
                assert(s.filter(keep)[i] == s.last());
                assert(s[s.len() - 1] == s.last());
            }
        }
    }
}

proof fn lemma_filter_all(s: Seq<Seq<char>>, keep: spec_fn(Seq<char>) -> bool)
    requires
        forall|i: int| 0 <= i < s.len() ==> keep(#[trigger] s[i]),
    ensures
        s.filter(keep) == s,
    decreases s.len(),
{
    reveal(Seq::filter);
    if s.len() > 0 {
        assert forall|i: int| 0 <= i < s.drop_last().len() implies keep(
            #[trigger] s.drop_last()[i],
        ) by {
            assert(s.drop_last()[i] == s[i]);
        }
        lemma_filter_all(s.drop_last(), keep);
        assert(keep(s[s.len() - 1]));
        assert(s.drop_last().push(s.last()) == s);
    }
}

proof fn lemma_filter_inserted(
    s: Seq<Seq<char>>,
    at: int,
    item: Seq<char>,
    keep: spec_fn(Seq<char>) -> bool,
)
    requires
        0 <= at <= s.len(),
        !keep(item),
        forall|i: int| 0 <= i < s.len() ==> keep(#[trigger] s[i]),
    ensures
        s.insert(at, item).filter(keep) == s,
    decreases s.len(),
{
    reveal(Seq::filter);
    let all = s.insert(at, item);
    if at == s.len() {
        assert(all.drop_last() == s);
        lemma_filter_all(s, keep);
    } else {
        let front = s.drop_last();
        assert(all.last() == s.last());
        assert(all.drop_last() == front.insert(at, item));
        assert forall|i: int| 0 <= i < front.len() implies keep(#[trigger] front[i]) by {
            assert(front[i] == s[i]);
        }
        lemma_filter_inserted(front, at, item, keep);
        assert(keep(s[s.len() - 1]));
        assert(front.push(s.last()) == s);
    }
}

/// Removing what was added gives the file back, character by character. A file
/// whose line feeds follow carriage returns is left out: adding the line
/// already writes it with bare line feeds.
pub proof fn law_remove_undoes_add(content: Seq<char>)
    requires
        !carries_line(content),
        crate::text::plain_endings(content),
    ensures
        removed(added(content)) == content,
{
    let lines = crate::text::lines(content);
    let ended = crate::text::ends_feed(content);
    let keep = |l: Seq<char>| !is_facelock_line(l);
    let at = insertion_point(lines);
    let all = lines.insert(at, PAM_LINE@);
    lemma_first_auth(lines);
    lemma_pam_line();
    crate::text::lemma_lines(content);
    lemma_lines_after_add(content);
    let read = crate::text::as_read(all, ended);
    assert forall|i: int| 0 <= i < all.len() implies #[trigger] read[i] == all[i] by {
        if i < at {
            assert(crate::text::as_read(lines, ended)[i] == lines[i]);
        } else if i > at {
            assert(crate::text::as_read(lines, ended)[i - 1] == lines[i - 1]);
        }
    }
    assert(read == all);
    lemma_filter_inserted(lines, at, PAM_LINE@, keep);
    let text = crate::text::join(all, seq!['\n']);
    assert(crate::text::ends_feed(added(content)) == ended) by {
        if !ended {
            assert(added(content) == text);
            assert(all.last().len() > 0) by {
                if lines.len() > 0 {
                    assert(all.last() == lines.last());
                } else {
                    assert(all.last() == PAM_LINE@);
                }
            }
            assert(text.last() == all.last().last()) by {
                if all.len() > 1 {
                    assert(text == crate::text::join(all.drop_last(), seq!['\n']) + seq!['\n']
                        + all.last());
                }
            }
            lemma_insert_line(lines, at);
            assert(all[all.len() - 1][all.last().len() - 1] != '\n');
        } else {
            assert(added(content).last() == '\n');
        }
    }
    crate::text::lemma_join_of_lines(content);
}

/// What a removal leaves, a removal keeps. A file with a line that ends in two
/// carriage returns is left out: each removal writes one of them less.
pub proof fn law_remove_is_idempotent(content: Seq<char>)
    requires
        crate::text::settled(content),
    ensures
        removed(removed(content)) == removed(content),
{
    let once = removed(content);
    let lines = crate::text::lines(content);
    let ended = crate::text::ends_feed(content);
    let keep = |l: Seq<char>| !is_facelock_line(l);
    let kept = lines.filter(keep);
    crate::text::lemma_lines(content);
    lemma_filter_keeps(lines, keep);
    lemma_filter_front(lines, keep);
    assert(crate::text::one_line_each(kept)) by {
        assert forall|i: int, k: int| 0 <= i < kept.len() && 0 <= k < kept[i].len() implies #[trigger]
            kept[i][k] != '\n' by {
            assert(lines.contains(kept[i]));
            let j = choose|j: int| 0 <= j < lines.len() && lines[j] == kept[i];
            assert(lines[j][k] != '\n');
        }
    }
    assert(crate::text::as_read(kept, ended) == kept) by {
        assert forall|i: int| 0 <= i < kept.len() implies #[trigger] crate::text::as_read(
            kept,
            ended,
        )[i] == kept[i] by {
            if i < kept.len() - 1 {
                assert(lines.drop_last().contains(kept[i]));
                let j = choose|j: int|
                    0 <= j < lines.drop_last().len() && lines.drop_last()[j] == kept[i];
                assert(crate::text::as_read(lines, ended)[j] == lines[j]);
            } else if ended {
                assert(lines.contains(kept[i]));
                let j = choose|j: int| 0 <= j < lines.len() && lines[j] == kept[i];
                assert(crate::text::as_read(lines, ended)[j] == lines[j]);
            }
        }
    }
    crate::text::lemma_joined_is_plain(kept, ended);
    law_removed_file_carries_no_line(content);
    lemma_filter_all(crate::text::lines(once), keep);
    crate::text::lemma_join_of_lines(once);
}

proof fn lemma_filter_front(s: Seq<Seq<char>>, keep: spec_fn(Seq<char>) -> bool)
    ensures
        forall|i: int|
            0 <= i < s.filter(keep).len() - 1 ==> s.drop_last().contains(
                #[trigger] s.filter(keep)[i],
            ),
{
    reveal(Seq::filter);
    if s.len() > 0 {
        let front = s.drop_last().filter(keep);
        lemma_filter_keeps(s.drop_last(), keep);
        assert forall|i: int| 0 <= i < s.filter(keep).len() - 1 implies s.drop_last().contains(
            #[trigger] s.filter(keep)[i],
        ) by {
            assert(s.filter(keep)[i] == front[i]);
        }
    }
}

} // verus!
