//! How loud the process is, and who decides it.
//!
//! Every filter names `facelock`, the target that this program's events carry.
//! `RUST_LOG` outranks `-v`, which outranks the program's default.

use crate::text::{chars_of, pieces_of, trim_start_chars};
use vstd::prelude::*;
use vstd::string::*;

verus! {

/// Which program this process is running as, which is to say who reads its log.
#[derive(Clone, Copy, Debug, PartialEq, Eq, Structural)]
pub enum Program {
    /// Every subcommand that a person types: its log shares a terminal with its
    /// prompts.
    Cli,
    /// The daemon, whose log goes to the journal.
    Daemon,
}

/// The command line's filter: warnings and errors, and nothing else.
pub const DEFAULT_CLI_LOG_FILTER: &'static str = "facelock=warn,facelock_daemon=warn";

/// The daemon's filter, and the command line's after one `-v`.
pub const DEFAULT_DAEMON_LOG_FILTER: &'static str = "facelock=info,facelock_daemon=info";

/// One filter per rung of loudness, the quietest first.
pub const LADDER: [&'static str; 4] = [
    DEFAULT_CLI_LOG_FILTER,
    DEFAULT_DAEMON_LOG_FILTER,
    "facelock=debug,facelock_daemon=debug",
    "facelock=trace,facelock_daemon=trace",
];

/// The rungs as texts.
pub open spec fn ladder() -> Seq<Seq<char>> {
    seq![
        "facelock=warn,facelock_daemon=warn"@,
        "facelock=info,facelock_daemon=info"@,
        "facelock=debug,facelock_daemon=debug"@,
        "facelock=trace,facelock_daemon=trace"@,
    ]
}

impl Program {
    /// Where the program starts on the ladder.
    pub open spec fn start(self) -> nat {
        match self {
            Program::Cli => 0,
            Program::Daemon => 1,
        }
    }

    /// Where the program starts on the ladder, before any `-v`.
    pub fn base_rung(self) -> (r: usize)
        ensures
            r == self.start(),
    {
        match self {
            Program::Cli => 0,
            Program::Daemon => 1,
        }
    }

    /// Whether the log names the target of each event.
    pub fn renders_target(self) -> (r: bool)
        ensures
            r == (self == Program::Daemon),
    {
        self == Program::Daemon
    }
}

/// The rung that a program stands on after some `-v`: one up for each, and no
/// further than the top.
pub open spec fn rung(program: Program, verbose: u8) -> nat {
    if program.start() + verbose < 4 {
        (program.start() + verbose) as nat
    } else {
        3
    }
}

/// The filter that a program runs at after some `-v`, when `RUST_LOG` says
/// nothing.
pub fn filter_for(program: Program, verbose: u8) -> (r: &'static str)
    ensures
        r@ == ladder()[rung(program, verbose) as int],
{
    let climbed: usize = program.base_rung() + verbose as usize;
    let at: usize = if climbed < 4 {
        climbed
    } else {
        3
    };
    let filters = LADDER;
    assert(filters@ =~= seq![
        "facelock=warn,facelock_daemon=warn",
        "facelock=info,facelock_daemon=info",
        "facelock=debug,facelock_daemon=debug",
        "facelock=trace,facelock_daemon=trace",
    ]);
    filters[at]
}

/// How many bytes a character takes in UTF-8.
pub open spec fn width(c: char) -> nat {
    if c <= '\u{7F}' {
        1
    } else if c <= '\u{7FF}' {
        2
    } else if c <= '\u{FFFF}' {
        3
    } else {
        4
    }
}

/// How many bytes a text takes in UTF-8.
pub open spec fn size(s: Seq<char>) -> nat
    decreases s.len(),
{
    if s.len() == 0 {
        0
    } else {
        size(s.drop_last()) + width(s.last())
    }
}

/// Whether a place, counted in bytes, lies between two characters of a text or at
/// one of its ends.
pub open spec fn is_boundary(s: Seq<char>, place: nat) -> bool {
    exists|k: int| 0 <= k <= s.len() && #[trigger] size(s.take(k)) == place
}

/// Whether a character parts a directive into target, span, fields and level.
pub open spec fn is_mark(c: char) -> bool {
    c == '=' || c == '[' || c == ']' || c == '{' || c == '}'
}

/// Whether no mark of a directive stands, counted from behind the leading white
/// space, at a place that is inside a character of the whole, or just before one.
pub open spec fn directive_is_readable(directive: Seq<char>) -> bool {
    let rest = crate::text::trim_start(directive);
    forall|k: int|
        0 <= k < rest.len() && is_mark(#[trigger] rest[k]) ==> is_boundary(
            directive,
            size(rest.take(k)),
        ) && is_boundary(directive, size(rest.take(k)) + 1)
}

/// Whether every directive between the commas of a filter is readable.
pub open spec fn is_readable(directives: Seq<char>) -> bool {
    forall|i: int|
        0 <= i < crate::text::split(directives, ","@).len() ==> directive_is_readable(
            #[trigger] crate::text::split(directives, ","@)[i],
        )
}

/// What there is against a filter with an unreadable directive.
pub const UNREADABLE_DIRECTIVE: &'static str =
    "a directive starts with white space and would be cut inside a character";

fn width_of(c: char) -> (r: u128)
    ensures
        r == width(c),
{
    if c <= '\u{7F}' {
        1
    } else if c <= '\u{7FF}' {
        2
    } else if c <= '\u{FFFF}' {
        3
    } else {
        4
    }
}

fn boundary(v: &Vec<char>, place: u128) -> (r: bool)
    ensures
        r == is_boundary(v@, place as nat),
{
    let mut at: u128 = 0;
    let mut i: usize = 0;
    while i < v.len()
        invariant
            i <= v.len(),
            at == size(v@.take(i as int)),
            at <= 4 * i,
            forall|k: int| 0 <= k < i ==> #[trigger] size(v@.take(k)) != place,
        decreases v.len() - i,
    {
        if at == place {
            return true;
        }
        assert(v@.take(i as int + 1).drop_last() =~= v@.take(i as int));
        at += width_of(v[i]);
        i += 1;
    }
    if at == place {
        assert(size(v@.take(v.len() as int)) == place);
        return true;
    }
    false
}

fn readable_directive(directive: &str) -> (r: bool)
    ensures
        r == directive_is_readable(directive@),
{
    let whole = chars_of(directive);
    let rest = trim_start_chars(&whole);
    let mut at: u128 = 0;
    let mut i: usize = 0;
    while i < rest.len()
        invariant
            i <= rest.len(),
            whole@ == directive@,
            rest@ == crate::text::trim_start(directive@),
            at == size(rest@.take(i as int)),
            at <= 4 * i,
            forall|k: int|
                0 <= k < i && is_mark(#[trigger] rest@[k]) ==> is_boundary(
                    directive@,
                    size(rest@.take(k)),
                ) && is_boundary(directive@, size(rest@.take(k)) + 1),
        decreases rest.len() - i,
    {
        let c = rest[i];
        if c == '=' || c == '[' || c == ']' || c == '{' || c == '}' {
            if !boundary(&whole, at) || !boundary(&whole, at + 1) {
                assert(is_mark(rest@[i as int]));
                return false;
            }
        }
        assert(rest@.take(i as int + 1).drop_last() =~= rest@.take(i as int));
        at += width_of(c);
        i += 1;
    }
    true
}

/// Whether every directive between the commas of a filter is readable.
pub fn readable(directives: &str) -> (r: bool)
    ensures
        r == is_readable(directives@),
{
    proof {
        reveal_strlit(",");
    }
    let pieces = pieces_of(directives, ",");
    let ghost all = crate::text::split(directives@, ","@);
    let mut i: usize = 0;
    while i < pieces.len()
        invariant
            i <= pieces.len(),
            all == crate::text::split(directives@, ","@),
            crate::text::texts(pieces@) == all,
            forall|k: int| 0 <= k < i ==> directive_is_readable(#[trigger] all[k]),
        decreases pieces.len() - i,
    {
        assert(all[i as int] == pieces[i as int]@);
        if !readable_directive(pieces[i].as_str()) {
            return false;
        }
        i += 1;
    }
    true
}

/// What `tracing_subscriber` has against a filter; nothing against one that it
/// can parse.
pub uninterp spec fn filter_complaint(directives: Seq<char>) -> Option<Seq<char>>;

/// `tracing_subscriber::EnvFilter::try_new`: none if it parses the filter, else
/// the error's display. The filter without a directive is parsed. It is asked of
/// readable filters only: it cuts a directive at its marks, and takes their places
/// behind the leading white space for places in the whole.
#[verifier::external_body]
pub(crate) fn complaint(directives: &str) -> (r: Option<String>)
    requires
        is_readable(directives@),
    ensures
        crate::text::opt_text(r) == filter_complaint(directives@),
        directives@.len() == 0 ==> r is None,
{
    match tracing_subscriber::EnvFilter::try_new(directives) {
        Ok(_) => None,
        Err(e) => Some(e.to_string()),
    }
}

/// The filter to run with, and the reason why the one that was asked for had to
/// be ignored.
pub open spec fn chosen(
    rust_log: Option<Seq<char>>,
    complaint: Option<Seq<char>>,
    fallback: Seq<char>,
) -> (Seq<char>, Option<Seq<char>>) {
    match (rust_log, complaint) {
        (None, _) => (fallback, None),
        (Some(raw), None) => (raw, None),
        (Some(_), Some(reason)) => (fallback, Some(reason)),
    }
}

/// The filter to run with, given what was asked for and what there is against
/// it.
pub fn directives_after(raw: &str, complaint: Option<String>, fallback: &'static str) -> (r: (
    String,
    Option<String>,
))
    ensures
        (r.0@, crate::text::opt_text(r.1)) == chosen(
            Some(raw@),
            crate::text::opt_text(complaint),
            fallback@,
        ),
{
    match complaint {
        None => (String::from_str(raw), None),
        Some(reason) => (String::from_str(fallback), Some(reason)),
    }
}

/// What there is against a filter: that it is unreadable, or else what
/// `tracing_subscriber` has against it.
pub open spec fn objection(directives: Seq<char>) -> Option<Seq<char>> {
    if is_readable(directives) {
        filter_complaint(directives)
    } else {
        Some(UNREADABLE_DIRECTIVE@)
    }
}

/// The filter to run with, given the value of `RUST_LOG`: that value if there is
/// one and it can be parsed, else the fallback.
pub fn chosen_directives(rust_log: Option<&str>, fallback: &'static str) -> (r: (
    String,
    Option<String>,
))
    ensures
        (r.0@, crate::text::opt_text(r.1)) == match rust_log {
            None => chosen(None, None, fallback@),
            Some(raw) => chosen(Some(raw@), objection(raw@), fallback@),
        },
{
    match rust_log {
        None => (String::from_str(fallback), None),
        Some(raw) => {
            let against = if readable(raw) {
                complaint(raw)
            } else {
                Some(String::from_str(UNREADABLE_DIRECTIVE))
            };
            directives_after(raw, against, fallback)
        },
    }
}

// ---------------------------------------------------------------------------
// Laws
// ---------------------------------------------------------------------------

/// The command line starts with warnings, the daemon with what it does, and each
/// further rung is the next level of detail for both targets.
pub proof fn law_the_rungs_are_the_levels(verbose: u8)
    ensures
        rung(Program::Cli, 0) == 0,
        rung(Program::Daemon, 0) == 1,
        rung(Program::Cli, verbose) <= 3,
        rung(Program::Daemon, verbose) <= 3,
        verbose <= 3 ==> rung(Program::Cli, verbose) == verbose,
        verbose >= 3 ==> rung(Program::Cli, verbose) == 3,
        ({
            let levels = seq!["warn"@, "info"@, "debug"@, "trace"@];
            &&& ladder().len() == levels.len()
            &&& forall|i: int|
                0 <= i < levels.len() ==> #[trigger] ladder()[i] == "facelock="@ + levels[i]
                    + ",facelock_daemon="@ + levels[i]
        }),
{
    reveal_strlit("facelock=");
    reveal_strlit(",facelock_daemon=");
    reveal_strlit("facelock=warn,facelock_daemon=warn");
    reveal_strlit("facelock=info,facelock_daemon=info");
    reveal_strlit("facelock=debug,facelock_daemon=debug");
    reveal_strlit("facelock=trace,facelock_daemon=trace");
    reveal_strlit("warn");
    reveal_strlit("info");
    reveal_strlit("debug");
    reveal_strlit("trace");
    let levels = seq!["warn"@, "info"@, "debug"@, "trace"@];
    assert forall|i: int| 0 <= i < levels.len() implies #[trigger] ladder()[i] == "facelock="@
        + levels[i] + ",facelock_daemon="@ + levels[i] by {
        assert(ladder()[i] =~= "facelock="@ + levels[i] + ",facelock_daemon="@ + levels[i]);
    }
}

proof fn lemma_narrow(s: Seq<char>)
    requires
        forall|k: int| 0 <= k < s.len() ==> #[trigger] s[k] as u32 <= 0x7F,
    ensures
        size(s) == s.len(),
    decreases s.len(),
{
    if s.len() > 0 {
        let c = s[s.len() - 1];
        assert(c as u32 <= 0x7F);
        law_characters_take_one_to_four_bytes(c);
        assert(width(s.last()) == 1);
        assert forall|k: int| 0 <= k < s.drop_last().len() implies #[trigger] s.drop_last()[k] as u32
            <= 0x7F by {
            assert(s.drop_last()[k] == s[k]);
        }
        lemma_narrow(s.drop_last());
    }
}

proof fn lemma_size_of_more(s: Seq<char>, k: int)
    requires
        0 <= k < s.len(),
    ensures
        size(s.take(k + 1)) == size(s.take(k)) + width(s[k]),
{
    assert(s.take(k + 1).drop_last() =~= s.take(k));
}

/// A filter of ASCII characters is readable, and so is one in which no directive
/// starts with white space, whatever it holds.
pub proof fn law_only_white_space_before_wide_characters_is_unreadable(directives: Seq<char>)
    ensures
        (forall|i: int, k: int|
            0 <= i < crate::text::split(directives, ","@).len() && 0 <= k < crate::text::split(
                directives,
                ","@,
            )[i].len() ==> #[trigger] crate::text::split(directives, ","@)[i][k] as u32 <= 0x7F)
            ==> is_readable(directives),
        (forall|i: int|
            0 <= i < crate::text::split(directives, ","@).len() ==> crate::text::trim_start(
                #[trigger] crate::text::split(directives, ","@)[i],
            ) == crate::text::split(directives, ","@)[i]) ==> is_readable(directives),
{
    let all = crate::text::split(directives, ","@);
    if forall|i: int, k: int|
        0 <= i < all.len() && 0 <= k < all[i].len() ==> #[trigger] all[i][k] as u32 <= 0x7F {
        assert forall|i: int| 0 <= i < all.len() implies directive_is_readable(
            #[trigger] all[i],
        ) by {
            let d = all[i];
            assert forall|k: int| 0 <= k < d.len() implies #[trigger] d[k] as u32 <= 0x7F by {
                assert(all[i][k] as u32 <= 0x7F);
            }
            lemma_plain_directive(d);
        }
    }
    if forall|i: int| 0 <= i < all.len() ==> crate::text::trim_start(#[trigger] all[i]) == all[i] {
        assert forall|i: int| 0 <= i < all.len() implies directive_is_readable(
            #[trigger] all[i],
        ) by {
            let d = all[i];
            assert forall|k: int| 0 <= k < d.len() && is_mark(#[trigger] d[k]) implies is_boundary(
                d,
                size(d.take(k)),
            ) && is_boundary(d, size(d.take(k)) + 1) by {
                lemma_size_of_more(d, k);
                assert(width(d[k]) == 1);
                assert(size(d.take(k + 1)) == size(d.take(k)) + 1);
            }
        }
    }
}

proof fn lemma_plain_directive(d: Seq<char>)
    requires
        forall|k: int| 0 <= k < d.len() ==> #[trigger] d[k] as u32 <= 0x7F,
    ensures
        directive_is_readable(d),
{
    let rest = crate::text::trim_start(d);
    crate::text::lemma_trim_start(d);
    let n = d.len() - rest.len();
    assert forall|k: int| 0 <= k < rest.len() && is_mark(#[trigger] rest[k]) implies is_boundary(
        d,
        size(rest.take(k)),
    ) && is_boundary(d, size(rest.take(k)) + 1) by {
        assert forall|j: int| 0 <= j < rest.take(k).len() implies #[trigger] rest.take(k)[j] as u32
            <= 0x7F by {
            assert(rest[j] == d[n + j]);
        }
        lemma_narrow(rest.take(k));
        lemma_narrow(d.take(k));
        lemma_narrow(d.take(k + 1));
        assert(size(d.take(k)) == k);
        assert(size(d.take(k + 1)) == k + 1);
    }
}

/// The value of the environment is objected to exactly where it cannot be read or
/// `tracing_subscriber` cannot parse it, and the fallback runs exactly then, or
/// where there is no value.
pub proof fn law_a_good_filter_is_run_as_it_is(raw: Seq<char>, fallback: Seq<char>)
    ensures
        is_readable(raw) && filter_complaint(raw) is None ==> chosen(
            Some(raw),
            objection(raw),
            fallback,
        ) == (raw, None::<Seq<char>>),
        is_readable(raw) && filter_complaint(raw) is Some ==> chosen(
            Some(raw),
            objection(raw),
            fallback,
        ) == (fallback, filter_complaint(raw)),
        !is_readable(raw) ==> chosen(Some(raw), objection(raw), fallback).0 == fallback && chosen(
            Some(raw),
            objection(raw),
            fallback,
        ).1 is Some,
        chosen(None, None, fallback) == (fallback, None::<Seq<char>>),
{
}

/// A character takes one byte below 80, two below 800, three below 10000, and four
/// from there on, these numbers being hexadecimal.
pub proof fn law_characters_take_one_to_four_bytes(c: char)
    ensures
        width(c) == 1 <==> (c as u32) < 0x80,
        width(c) == 2 <==> 0x80 <= (c as u32) < 0x800,
        width(c) == 3 <==> 0x800 <= (c as u32) < 0x10000,
        width(c) == 4 <==> 0x10000 <= (c as u32),
{
}

/// Each `-v` climbs one rung, and the top is as loud as it gets.
pub proof fn law_each_flag_climbs_one_rung(program: Program, verbose: u8)
    requires
        verbose < u8::MAX,
    ensures
        rung(program, (verbose + 1) as u8) == if rung(program, verbose) < 3 {
            rung(program, verbose) + 1
        } else {
            3
        },
{
}

/// The daemon is one rung louder than the command line with as many `-v`, up to
/// the top: one `-v` is the daemon's default.
pub proof fn law_daemon_is_one_rung_louder(verbose: u8)
    requires
        verbose < u8::MAX,
    ensures
        rung(Program::Daemon, verbose) == rung(Program::Cli, (verbose + 1) as u8),
{
}

/// A filter that can be parsed outranks the flags whatever they say, and only
/// one that was set and cannot be parsed is complained of.
pub proof fn law_environment_outranks_flags(
    rust_log: Option<Seq<char>>,
    complaint: Option<Seq<char>>,
    a: Seq<char>,
    b: Seq<char>,
)
    ensures
        rust_log is Some && complaint is None ==> chosen(rust_log, complaint, a) == chosen(
            rust_log,
            complaint,
            b,
        ) && chosen(rust_log, complaint, a).0 == rust_log->0,
        chosen(rust_log, complaint, a).1 is Some <==> rust_log is Some && complaint is Some,
        chosen(rust_log, complaint, a).1 is Some ==> chosen(rust_log, complaint, a).0 == a,
{
}

/// Every rung filters on the program's own target and on the daemon library's.
pub proof fn law_every_rung_names_its_targets(i: int)
    requires
        0 <= i < ladder().len(),
    ensures
        crate::text::has_prefix(ladder()[i], "facelock="@),
        crate::text::contains(ladder()[i], ",facelock_daemon="@),
{
    reveal_strlit("facelock=");
    reveal_strlit(",facelock_daemon=");
    reveal_strlit("facelock=warn,facelock_daemon=warn");
    reveal_strlit("facelock=info,facelock_daemon=info");
    reveal_strlit("facelock=debug,facelock_daemon=debug");
    reveal_strlit("facelock=trace,facelock_daemon=trace");
    let r = ladder()[i];
    let at: int = if i < 2 {
        13
    } else {
        14
    };
    assert(r.take(9) =~= "facelock="@);
    assert(r.skip(at).take(17) =~= ",facelock_daemon="@);
    assert(crate::text::has_prefix(r.skip(at), ",facelock_daemon="@));
    crate::text::lemma_find(r, ",facelock_daemon="@);
}

} // verus!
