//! Text as sequences of characters: the splitting, trimming, searching and
//! number notation that the rest of the library is written with.

use vstd::prelude::*;
use vstd::string::*;

verus! {

/// `String::push` appends one character.
pub assume_specification[ String::push ](s: &mut String, c: char)
    ensures
        final(s)@ == old(s)@.push(c),
;

/// What `str::to_lowercase` makes of a text: the Unicode lowercase mapping.
pub uninterp spec fn lowercase(s: Seq<char>) -> Seq<char>;

/// `str::to_lowercase`, whose result is a function of the text alone.
#[verifier::external_body]
pub(crate) fn to_lowercase(s: &str) -> (r: String)
    ensures
        r@ == lowercase(s@),
{
    s.to_lowercase()
}

/// What `format!("{:?}", ..)` makes of a text: the text in quotes, with escapes.
pub uninterp spec fn debug_quoted(s: Seq<char>) -> Seq<char>;

/// The debug notation of a text by std's formatting, which is a function of the
/// text alone.
#[verifier::external_body]
pub(crate) fn quoted(s: &str) -> (r: String)
    ensures
        r@ == debug_quoted(s@),
{
    format!("{:?}", s)
}

/// The characters of a text.
pub fn chars_of(s: &str) -> (v: Vec<char>)
    ensures
        v@ == s@,
{
    let mut v: Vec<char> = Vec::new();
    for c in it: s.chars()
        invariant
            v@ == it.seq().take(it.index()),
            it.seq() == s@,
    {
        v.push(c);
    }
    v
}

/// The text made of the given characters.
pub fn string_of(v: &Vec<char>) -> (s: String)
    ensures
        s@ == v@,
{
    let mut s = String::new();
    let mut i: usize = 0;
    while i < v.len()
        invariant
            i <= v.len(),
            s@ == v@.take(i as int),
        decreases v.len() - i,
    {
        s.push(v[i]);
        i += 1;
    }
    s
}

/// Whether two texts hold the same characters.
pub fn same(a: &str, b: &str) -> (r: bool)
    ensures
        r == (a@ == b@),
{
    a.to_owned() == b.to_owned()
}

/// A copy of the characters from `from` to `to`.
pub fn piece(v: &Vec<char>, from: usize, to: usize) -> (r: Vec<char>)
    requires
        from <= to <= v.len(),
    ensures
        r@ == v@.subrange(from as int, to as int),
{
    let mut r: Vec<char> = Vec::new();
    let mut i: usize = from;
    while i < to
        invariant
            from <= i <= to <= v.len(),
            r@ == v@.subrange(from as int, i as int),
        decreases to - i,
    {
        r.push(v[i]);
        i += 1;
    }
    r
}

/// The text of an optional string.
pub open spec fn opt_text(s: Option<String>) -> Option<Seq<char>> {
    match s {
        Some(t) => Some(t@),
        None => None,
    }
}

/// The texts of a list of strings.
pub open spec fn texts(v: Seq<String>) -> Seq<Seq<char>> {
    v.map_values(|s: String| s@)
}

/// A Unicode white-space character.
pub open spec fn is_space(c: char) -> bool {
    ||| '\u{9}' <= c && c <= '\u{D}'
    ||| c == ' '
    ||| c == '\u{85}'
    ||| c == '\u{A0}'
    ||| c == '\u{1680}'
    ||| '\u{2000}' <= c && c <= '\u{200A}'
    ||| c == '\u{2028}'
    ||| c == '\u{2029}'
    ||| c == '\u{202F}'
    ||| c == '\u{205F}'
    ||| c == '\u{3000}'
}

/// The text without its leading white space.
pub open spec fn trim_start(s: Seq<char>) -> Seq<char>
    decreases s.len(),
{
    if s.len() > 0 && is_space(s[0]) {
        trim_start(s.skip(1))
    } else {
        s
    }
}

/// The text without its trailing white space.
pub open spec fn trim_end(s: Seq<char>) -> Seq<char>
    decreases s.len(),
{
    if s.len() > 0 && is_space(s.last()) {
        trim_end(s.drop_last())
    } else {
        s
    }
}

/// The text without white space at either end.
pub open spec fn trim(s: Seq<char>) -> Seq<char> {
    trim_end(trim_start(s))
}

/// Where `pattern` first occurs in `s`.
pub open spec fn find(s: Seq<char>, pattern: Seq<char>) -> Option<nat>
    decreases s.len(),
{
    if pattern.len() > s.len() {
        None
    } else if s.take(pattern.len() as int) == pattern {
        Some(0)
    } else if s.len() == 0 {
        None
    } else {
        match find(s.skip(1), pattern) {
            Some(n) => Some(n + 1),
            None => None,
        }
    }
}

/// Whether `pattern` occurs in `s`.
pub open spec fn contains(s: Seq<char>, pattern: Seq<char>) -> bool {
    find(s, pattern) is Some
}

/// Whether `s` begins with `prefix`.
pub open spec fn has_prefix(s: Seq<char>, prefix: Seq<char>) -> bool {
    prefix.len() <= s.len() && s.take(prefix.len() as int) == prefix
}

/// Whether `s` ends with `suffix`.
pub open spec fn has_suffix(s: Seq<char>, suffix: Seq<char>) -> bool {
    suffix.len() <= s.len() && s.skip(s.len() - suffix.len()) == suffix
}

/// The pieces of `s` between the occurrences of a non-empty `separator`.
pub open spec fn split(s: Seq<char>, separator: Seq<char>) -> Seq<Seq<char>>
    decreases s.len(),
{
    match find(s, separator) {
        Some(n) if separator.len() > 0 && n + separator.len() <= s.len() => seq![
            s.take(n as int),
        ] + split(s.skip((n + separator.len()) as int), separator),
        _ => seq![s],
    }
}

/// How many characters stand before the first line feed.
pub open spec fn line_len(s: Seq<char>) -> nat
    decreases s.len(),
{
    if s.len() == 0 || s[0] == '\n' {
        0
    } else {
        1 + line_len(s.skip(1))
    }
}

/// A terminated line without the carriage return that its ending may hold.
pub open spec fn strip_cr(s: Seq<char>) -> Seq<char> {
    if s.len() > 0 && s.last() == '\r' {
        s.drop_last()
    } else {
        s
    }
}

/// The lines of a text. A line ends with a line feed, which may follow a
/// carriage return; neither is part of the line. The last line may lack its
/// ending, and then keeps a carriage return.
pub open spec fn lines(s: Seq<char>) -> Seq<Seq<char>>
    decreases s.len(),
{
    if s.len() == 0 {
        Seq::empty()
    } else if line_len(s) >= s.len() {
        seq![s]
    } else {
        seq![strip_cr(s.take(line_len(s) as int))] + lines(s.skip(line_len(s) as int + 1))
    }
}

/// The parts one after another, with `separator` between neighbours.
pub open spec fn join(parts: Seq<Seq<char>>, separator: Seq<char>) -> Seq<char>
    decreases parts.len(),
{
    if parts.len() == 0 {
        Seq::empty()
    } else if parts.len() == 1 {
        parts[0]
    } else {
        join(parts.drop_last(), separator) + separator + parts.last()
    }
}

/// An ASCII letter or digit.
pub open spec fn is_alphanumeric(c: char) -> bool {
    ('0' <= c && c <= '9') || ('A' <= c && c <= 'Z') || ('a' <= c && c <= 'z')
}

/// An ASCII capital as its small letter; any other character as it is.
pub open spec fn ascii_lower_char(c: char) -> char {
    if 'A' <= c && c <= 'Z' {
        ((c as u8) + 32) as char
    } else {
        c
    }
}

/// The text with its ASCII capitals made small.
pub open spec fn ascii_lower(s: Seq<char>) -> Seq<char> {
    s.map_values(|c: char| ascii_lower_char(c))
}

/// Equality that takes an ASCII capital and its small letter for the same.
pub open spec fn eq_ignore_case(a: Seq<char>, b: Seq<char>) -> bool {
    ascii_lower(a) == ascii_lower(b)
}

/// The decimal digit of a number under ten.
pub open spec fn digit(n: nat) -> char {
    (('0' as u8) + n) as char
}

/// Decimal notation.
pub open spec fn decimal(n: nat) -> Seq<char>
    decreases n,
{
    if n < 10 {
        seq![digit(n)]
    } else {
        decimal(n / 10).push(digit(n % 10))
    }
}

/// Octal notation.
pub open spec fn octal(n: nat) -> Seq<char>
    decreases n,
{
    if n < 8 {
        seq![digit(n)]
    } else {
        octal(n / 8).push(digit(n % 8))
    }
}

/// The value of a digit.
pub open spec fn digit_value(c: char) -> nat {
    (c as int - '0' as int) as nat
}

/// The number that a row of digits denotes.
pub open spec fn decimal_value(s: Seq<char>) -> nat
    decreases s.len(),
{
    if s.len() == 0 {
        0
    } else {
        10 * decimal_value(s.drop_last()) + digit_value(s.last())
    }
}

/// A decimal digit.
pub open spec fn is_digit(c: char) -> bool {
    '0' <= c && c <= '9'
}

/// Whether a text is a year of at least four characters, a hyphen, two digits, a
/// hyphen and two digits.
pub open spec fn is_day(s: Seq<char>) -> bool {
    let n = s.len();
    &&& n >= 10
    &&& s[n - 6] == '-'
    &&& is_digit(s[n - 5]) && is_digit(s[n - 4])
    &&& s[n - 3] == '-'
    &&& is_digit(s[n - 2]) && is_digit(s[n - 1])
}

/// Whether every character is a decimal digit.
pub open spec fn all_digits(s: Seq<char>) -> bool {
    forall|i: int| 0 <= i < s.len() ==> '0' <= #[trigger] s[i] && s[i] <= '9'
}

/// The `u32` that a text denotes: digits, of which there is at least one,
/// after at most one plus sign, and a value that fits.
pub open spec fn parse_u32(s: Seq<char>) -> Option<u32> {
    let digits = if s.len() > 0 && s[0] == '+' {
        s.skip(1)
    } else {
        s
    };
    if digits.len() > 0 && all_digits(digits) && decimal_value(digits) <= u32::MAX {
        Some(decimal_value(digits) as u32)
    } else {
        None
    }
}

proof fn lemma_digit(n: nat)
    requires
        n < 10,
    ensures
        '0' <= digit(n) <= '9',
        digit_value(digit(n)) == n,
{
}

/// The decimal notation of a number is digits, and reads back as the number.
pub proof fn law_decimal_reads_back(n: nat)
    ensures
        decimal(n).len() > 0,
        all_digits(decimal(n)),
        decimal_value(decimal(n)) == n,
        n <= u32::MAX ==> parse_u32(decimal(n)) == Some(n as u32),
    decreases n,
{
    if n < 10 {
        lemma_digit(n);
        assert(decimal(n).drop_last() =~= Seq::<char>::empty());
        assert(decimal_value(Seq::<char>::empty()) == 0);
    } else {
        law_decimal_reads_back(n / 10);
        lemma_digit(n % 10);
        assert(decimal(n).drop_last() =~= decimal(n / 10));
    }
    assert('0' <= decimal(n)[0]);
}

/// Alphabetical order by character code: whether `a` is `b` or comes first.
pub open spec fn text_le(a: Seq<char>, b: Seq<char>) -> bool
    decreases a.len(),
{
    if a.len() == 0 {
        true
    } else if b.len() == 0 {
        false
    } else if a[0] == b[0] {
        text_le(a.skip(1), b.skip(1))
    } else {
        a[0] < b[0]
    }
}

/// Whether texts stand in alphabetical order.
pub open spec fn is_sorted(v: Seq<Seq<char>>) -> bool {
    forall|i: int, j: int| 0 <= i <= j < v.len() ==> text_le(#[trigger] v[i], #[trigger] v[j])
}

/// What [`find`] says: the place it gives is an occurrence and the first one;
/// where it gives none, there is none.
pub proof fn lemma_find(s: Seq<char>, pattern: Seq<char>)
    ensures
        match find(s, pattern) {
            Some(n) => {
                &&& n + pattern.len() <= s.len()
                &&& has_prefix(s.skip(n as int), pattern)
                &&& forall|k: int| 0 <= k < n ==> !has_prefix(#[trigger] s.skip(k), pattern)
            },
            None => forall|k: int| 0 <= k <= s.len() ==> !has_prefix(#[trigger] s.skip(k), pattern),
        },
    decreases s.len(),
{
    assert(s.skip(0) == s);
    if pattern.len() <= s.len() && s.take(pattern.len() as int) != pattern && s.len() > 0 {
        lemma_find(s.skip(1), pattern);
        assert forall|k: int| 0 < k <= s.len() implies s.skip(1).skip(k - 1) == #[trigger] s.skip(
            k,
        ) by {}
        match find(s.skip(1), pattern) {
            Some(n) => {
                assert(s.skip(1).skip(n as int) == s.skip(n as int + 1));
            },
            None => {},
        }
    }
}

/// Whether the text ends with a line feed.
pub open spec fn ends_feed(s: Seq<char>) -> bool {
    s.len() > 0 && s.last() == '\n'
}

/// The line feed that a text has at its end, or nothing.
pub open spec fn feed(present: bool) -> Seq<char> {
    if present {
        seq!['\n']
    } else {
        Seq::empty()
    }
}

/// Whether no text of the list holds a line feed.
pub open spec fn one_line_each(v: Seq<Seq<char>>) -> bool {
    forall|i: int, k: int|
        0 <= i < v.len() && 0 <= k < v[i].len() ==> #[trigger] v[i][k] != '\n'
}

/// Whether no line feed follows a carriage return.
pub open spec fn plain_endings(s: Seq<char>) -> bool {
    forall|i: int| 0 <= i < s.len() - 1 && #[trigger] s[i] == '\r' ==> s[i + 1] != '\n'
}

/// Lines as a reader finds them: those that a line feed ends lose a carriage
/// return at their end.
pub open spec fn as_read(v: Seq<Seq<char>>, last_ended: bool) -> Seq<Seq<char>> {
    Seq::new(
        v.len(),
        |i: int|
            if i < v.len() - 1 || last_ended {
                strip_cr(v[i])
            } else {
                v[i]
            },
    )
}

proof fn lemma_line_len(s: Seq<char>)
    ensures
        line_len(s) <= s.len(),
        forall|k: int| 0 <= k < line_len(s) ==> #[trigger] s[k] != '\n',
        line_len(s) < s.len() ==> s[line_len(s) as int] == '\n',
    decreases s.len(),
{
    if s.len() > 0 && s[0] != '\n' {
        let t = s.skip(1);
        lemma_line_len(t);
        assert forall|k: int| 0 <= k < line_len(s) implies #[trigger] s[k] != '\n' by {
            if k > 0 {
                assert(t[k - 1] == s[k]);
            }
        }
        if line_len(s) < s.len() {
            assert(t[line_len(t) as int] == s[line_len(s) as int]);
        }
    }
}

proof fn lemma_line_len_is(s: Seq<char>, n: nat)
    requires
        n <= s.len(),
        forall|k: int| 0 <= k < n ==> #[trigger] s[k] != '\n',
        n < s.len() ==> s[n as int] == '\n',
    ensures
        line_len(s) == n,
{
    lemma_line_len(s);
    let m = line_len(s);
    if m < n {
        assert(s[m as int] != '\n');
    } else if n < m {
        assert(s[n as int] != '\n');
    }
}

/// Joining from the front: the first part, the separator, the rest joined.
pub proof fn lemma_join_front(first: Seq<char>, rest: Seq<Seq<char>>, separator: Seq<char>)
    requires
        rest.len() > 0,
    ensures
        join(seq![first] + rest, separator) == first + separator + join(rest, separator),
    decreases rest.len(),
{
    let all = seq![first] + rest;
    assert(all.last() == rest.last());
    if rest.len() == 1 {
        assert(all.drop_last() == seq![first]);
        assert(join(seq![first], separator) == first);
    } else {
        assert(all.drop_last() == seq![first] + rest.drop_last());
        lemma_join_front(first, rest.drop_last(), separator);
        assert(first + separator + join(rest.drop_last(), separator) + separator + rest.last()
            == first + separator + (join(rest.drop_last(), separator) + separator + rest.last()));
    }
}

/// What is written as joined lines is read as those lines.
pub proof fn lemma_lines_of_join(v: Seq<Seq<char>>, last_ended: bool)
    requires
        v.len() > 0,
        one_line_each(v),
        last_ended || v.last().len() > 0,
    ensures
        lines(join(v, seq!['\n']) + feed(last_ended)) == as_read(v, last_ended),
    decreases v.len(),
{
    let n = seq!['\n'];
    let first = v[0];
    let whole = join(v, n) + feed(last_ended);
    assert forall|k: int| 0 <= k < first.len() implies #[trigger] first[k] != '\n' by {
        assert(v[0][k] != '\n');
    }
    if v.len() == 1 {
        assert(whole == first + feed(last_ended));
        if last_ended {
            lemma_line_len_is(whole, first.len());
            assert(whole.take(first.len() as int) == first);
            assert(whole.skip(first.len() as int + 1) == Seq::<char>::empty());
            assert(lines(whole) == seq![strip_cr(first)] + lines(Seq::<char>::empty()));
            assert(seq![strip_cr(first)] + Seq::<Seq<char>>::empty() == as_read(v, last_ended));
        } else {
            assert(whole == first);
            lemma_line_len_is(whole, first.len());
            assert(seq![whole] == as_read(v, last_ended));
        }
    } else {
        let rest = v.skip(1);
        assert(v == seq![first] + rest);
        lemma_join_front(first, rest, n);
        let after = join(rest, n) + feed(last_ended);
        assert(whole == first + n + after);
        lemma_line_len_is(whole, first.len());
        assert(whole.take(first.len() as int) == first);
        assert(whole.skip(first.len() as int + 1) == after);
        assert(rest.last() == v.last());
        assert(one_line_each(rest)) by {
            assert forall|i: int, k: int|
                0 <= i < rest.len() && 0 <= k < rest[i].len() implies #[trigger] rest[i][k]
                != '\n' by {
                assert(v[i + 1][k] != '\n');
            }
        }
        lemma_lines_of_join(rest, last_ended);
        assert(seq![strip_cr(first)] + as_read(rest, last_ended) == as_read(v, last_ended));
    }
}

/// The lines of a text that begins with an ended line.
pub proof fn lemma_lines_front(line: Seq<char>, rest: Seq<char>)
    requires
        forall|k: int| 0 <= k < line.len() ==> #[trigger] line[k] != '\n',
    ensures
        lines(line + seq!['\n'] + rest) == seq![strip_cr(line)] + lines(rest),
{
    let whole = line + seq!['\n'] + rest;
    lemma_line_len_is(whole, line.len());
    assert(whole.take(line.len() as int) == line);
    assert(whole.skip(line.len() as int + 1) == rest);
}

/// The lines of a text are one line each; there is one unless the text is
/// empty; and the last of a text that does not end with a line feed is not
/// empty.
pub proof fn lemma_lines(s: Seq<char>)
    ensures
        one_line_each(lines(s)),
        s.len() > 0 ==> lines(s).len() > 0,
        s.len() > 0 && !ends_feed(s) ==> lines(s).last().len() > 0,
        plain_endings(s) ==> as_read(lines(s), ends_feed(s)) == lines(s),
    decreases s.len(),
{
    if s.len() > 0 {
        lemma_line_len(s);
        let n = line_len(s) as int;
        if n == s.len() {
            assert(lines(s) == seq![s]);
            assert(plain_endings(s) ==> as_read(lines(s), ends_feed(s)) == lines(s));
        } else {
            let line = s.take(n);
            let rest = s.skip(n + 1);
            lemma_lines(rest);
            let all = seq![strip_cr(line)] + lines(rest);
            assert(lines(s) == all);
            assert forall|i: int, k: int|
                0 <= i < all.len() && 0 <= k < all[i].len() implies #[trigger] all[i][k]
                != '\n' by {
                if i == 0 {
                    assert(all[0][k] == s[k]);
                } else {
                    assert(all[i] == lines(rest)[i - 1]);
                    assert(lines(rest)[i - 1][k] != '\n');
                }
            }
            if rest.len() > 0 {
                assert(all.last() == lines(rest).last());
                assert(rest.last() == s.last());
            } else {
                assert(s.last() == s[n]);
            }
            if plain_endings(s) {
                assert(plain_endings(rest)) by {
                    assert forall|i: int|
                        0 <= i < rest.len() - 1 && #[trigger] rest[i] == '\r' implies rest[i + 1]
                        != '\n' by {
                        assert(s[i + n + 1] == '\r');
                        assert(rest[i + 1] == s[i + n + 2]);
                    }
                }
                if line.len() > 0 {
                    assert(line.last() == s[n - 1]);
                    assert(s[n - 1] == '\r' ==> s[n] != '\n');
                }
                assert(strip_cr(line) == line);
                assert(strip_cr(strip_cr(line)) == line);
                let read = as_read(all, ends_feed(s));
                assert forall|i: int| 0 <= i < all.len() implies #[trigger] read[i] == all[i] by {
                    if i > 0 {
                        assert(all[i] == lines(rest)[i - 1]);
                        assert(as_read(lines(rest), ends_feed(rest))[i - 1] == lines(rest)[i - 1]);
                    }
                }
                assert(read == all);
            }
        }
    }
}

/// A text whose line feeds follow no carriage return is its lines joined.
pub proof fn lemma_join_of_lines(s: Seq<char>)
    requires
        plain_endings(s),
    ensures
        join(lines(s), seq!['\n']) + feed(ends_feed(s)) == s,
    decreases s.len(),
{
    let f = seq!['\n'];
    if s.len() > 0 {
        lemma_line_len(s);
        let n = line_len(s) as int;
        if n == s.len() {
            assert(lines(s) == seq![s]);
            assert(s.last() != '\n');
            assert(join(seq![s], f) + feed(false) == s);
        } else {
            let line = s.take(n);
            let rest = s.skip(n + 1);
            assert(plain_endings(rest)) by {
                assert forall|i: int|
                    0 <= i < rest.len() - 1 && #[trigger] rest[i] == '\r' implies rest[i + 1]
                    != '\n' by {
                    assert(s[i + n + 1] == '\r');
                    assert(rest[i + 1] == s[i + n + 2]);
                }
            }
            if line.len() > 0 {
                assert(line.last() == s[n - 1]);
                assert(s[n - 1] == '\r' ==> s[n] != '\n');
            }
            assert(strip_cr(line) == line);
            lemma_join_of_lines(rest);
            lemma_lines(rest);
            if rest.len() == 0 {
                assert(lines(s) == seq![line]);
                assert(s.last() == s[n]);
                assert(line + feed(true) == s);
            } else {
                lemma_join_front(line, lines(rest), f);
                assert(rest.last() == s.last());
                assert(line + f + join(lines(rest), f) + feed(ends_feed(rest)) == line + f + (join(
                    lines(rest),
                    f,
                ) + feed(ends_feed(rest))));
                assert(line + f + rest == s);
            }
        }
    } else {
        assert(join(lines(s), f) + feed(false) == s);
    }
}

/// Every line that is read of joined lines is one of them, perhaps without a
/// carriage return at its end, or is empty.
pub proof fn lemma_lines_of_join_are_known(v: Seq<Seq<char>>, last_ended: bool, line: Seq<char>)
    requires
        one_line_each(v),
        lines(join(v, seq!['\n']) + feed(last_ended)).contains(line),
    ensures
        line.len() == 0 || v.contains(line) || exists|i: int|
            0 <= i < v.len() && line == strip_cr(#[trigger] v[i]),
    decreases v.len(),
{
    let n = seq!['\n'];
    let whole = join(v, n) + feed(last_ended);
    if v.len() == 0 {
        if last_ended {
            assert(whole == n);
            lemma_line_len_is(whole, 0);
            assert(whole.take(0) == Seq::<char>::empty());
            assert(whole.skip(1) == Seq::<char>::empty());
            assert(lines(whole) == seq![Seq::<char>::empty()] + lines(Seq::<char>::empty()));
            assert(line == Seq::<char>::empty());
        } else {
            assert(whole == Seq::<char>::empty());
        }
    } else if last_ended || v.last().len() > 0 {
        lemma_lines_of_join(v, last_ended);
        let i = choose|i: int| 0 <= i < as_read(v, last_ended).len() && as_read(v, last_ended)[i] == line;
        assert(line == strip_cr(v[i]) || line == v[i]);
    } else {
        let front = v.drop_last();
        assert(one_line_each(front)) by {
            assert forall|i: int, k: int|
                0 <= i < front.len() && 0 <= k < front[i].len() implies #[trigger] front[i][k]
                != '\n' by {
                assert(v[i][k] != '\n');
            }
        }
        if front.len() == 0 {
            assert(whole == Seq::<char>::empty());
        } else {
            assert(whole == join(front, n) + feed(true));
            lemma_lines_of_join_are_known(front, true, line);
            if front.contains(line) {
                let i = choose|i: int| 0 <= i < front.len() && front[i] == line;
                assert(v[i] == line);
            } else if line.len() > 0 {
                let i = choose|i: int| 0 <= i < front.len() && line == strip_cr(#[trigger] front[i]);
                assert(v[i] == front[i]);
            }
        }
    }
}

/// Whether reading the text's lines and writing them again would settle at
/// once: no line ends with a carriage return before its ending.
pub open spec fn settled(s: Seq<char>) -> bool {
    as_read(lines(s), ends_feed(s)) == lines(s)
}

/// A pattern of one character occurs exactly where that character does.
pub proof fn lemma_contains_char(s: Seq<char>, c: char)
    ensures
        contains(s, seq![c]) <==> s.contains(c),
{
    lemma_find(s, seq![c]);
    match find(s, seq![c]) {
        Some(n) => {
            assert(s.skip(n as int).take(1)[0] == c);
            assert(s[n as int] == c);
        },
        None => {
            if s.contains(c) {
                let k = choose|k: int| 0 <= k < s.len() && s[k] == c;
                assert(s.skip(k).take(1) =~= seq![c]);
                assert(has_prefix(s.skip(k), seq![c]));
            }
        },
    }
}

/// What trimming the front leaves is the end of the text, and what it takes
/// away is white space.
pub proof fn lemma_trim_start(s: Seq<char>)
    ensures
        trim_start(s).len() <= s.len(),
        s.skip(s.len() - trim_start(s).len()) == trim_start(s),
        forall|k: int| 0 <= k < s.len() - trim_start(s).len() ==> is_space(#[trigger] s[k]),
        trim_start(s).len() > 0 ==> !is_space(trim_start(s)[0]),
    decreases s.len(),
{
    if s.len() > 0 && is_space(s[0]) {
        let t = s.skip(1);
        lemma_trim_start(t);
        let n = s.len() - trim_start(s).len();
        assert(s.skip(n) == t.skip(n - 1));
        assert forall|k: int| 0 <= k < n implies is_space(#[trigger] s[k]) by {
            if k > 0 {
                assert(t[k - 1] == s[k]);
            }
        }
    } else {
        assert(s.skip(0) == s);
    }
}

/// White space in front of a text that begins with none is trimmed away.
pub proof fn lemma_trim_start_of_indented(indent: Seq<char>, t: Seq<char>)
    requires
        forall|k: int| 0 <= k < indent.len() ==> is_space(#[trigger] indent[k]),
        t.len() > 0,
        !is_space(t[0]),
    ensures
        trim_start(indent + t) == t,
    decreases indent.len(),
{
    let s = indent + t;
    if indent.len() == 0 {
        assert(s == t);
    } else {
        let rest = indent.skip(1);
        assert(s.skip(1) == rest + t);
        assert forall|k: int| 0 <= k < rest.len() implies is_space(#[trigger] rest[k]) by {
            assert(rest[k] == indent[k + 1]);
        }
        lemma_trim_start_of_indented(rest, t);
        assert(s[0] == indent[0]);
    }
}

/// Joining lines that a reader would find unchanged makes a text whose line
/// feeds follow no carriage return.
pub proof fn lemma_joined_is_plain(v: Seq<Seq<char>>, last_ended: bool)
    requires
        one_line_each(v),
        as_read(v, last_ended) == v,
    ensures
        plain_endings(join(v, seq!['\n']) + feed(last_ended)),
    decreases v.len(),
{
    let n = seq!['\n'];
    let whole = join(v, n) + feed(last_ended);
    if v.len() == 1 {
        assert(whole == v[0] + feed(last_ended));
        assert(as_read(v, last_ended)[0] == v[0]);
        assert forall|i: int| 0 <= i < whole.len() - 1 && #[trigger] whole[i] == '\r' implies whole[i
            + 1] != '\n' by {
            if i + 1 < v[0].len() {
                assert(v[0][i + 1] != '\n');
            } else {
                assert(strip_cr(v[0]) == v[0]);
            }
        }
    } else if v.len() > 1 {
        let first = v[0];
        let rest = v.skip(1);
        assert(v == seq![first] + rest);
        lemma_join_front(first, rest, n);
        let after = join(rest, n) + feed(last_ended);
        assert(whole == first + n + after);
        assert(one_line_each(rest)) by {
            assert forall|i: int, k: int|
                0 <= i < rest.len() && 0 <= k < rest[i].len() implies #[trigger] rest[i][k]
                != '\n' by {
                assert(v[i + 1][k] != '\n');
            }
        }
        assert(as_read(rest, last_ended) == rest) by {
            assert forall|i: int| 0 <= i < rest.len() implies #[trigger] as_read(
                rest,
                last_ended,
            )[i] == rest[i] by {
                assert(as_read(v, last_ended)[i + 1] == v[i + 1]);
            }
        }
        lemma_joined_is_plain(rest, last_ended);
        assert(as_read(v, last_ended)[0] == v[0]);
        assert(strip_cr(first) == first);
        assert forall|i: int| 0 <= i < whole.len() - 1 && #[trigger] whole[i] == '\r' implies whole[i
            + 1] != '\n' by {
            if i + 1 < first.len() {
                assert(v[0][i + 1] != '\n');
            } else if i > first.len() {
                assert(after[i - first.len() - 1] == '\r');
                assert(after[i - first.len()] == whole[i + 1]);
            }
        }
    }
}

/// White space at the end of a text does not show once it is trimmed.
pub proof fn lemma_trim_ignores_last_space(s: Seq<char>)
    requires
        s.len() > 0,
        is_space(s.last()),
    ensures
        trim(s.drop_last()) == trim(s),
    decreases s.len(),
{
    if is_space(s[0]) {
        if s.len() == 1 {
            assert(s.skip(1) == s.drop_last());
        } else {
            lemma_trim_ignores_last_space(s.skip(1));
            assert(s.skip(1).drop_last() == s.drop_last().skip(1));
            assert(s.drop_last()[0] == s[0]);
        }
    } else {
        assert(trim_start(s) == s);
        assert(s.len() > 1);
        assert(s.drop_last()[0] == s[0]);
        assert(trim_start(s.drop_last()) == s.drop_last());
    }
}

// ---------------------------------------------------------------------------
// Laws
// ---------------------------------------------------------------------------

/// The characters that count as white space, by their numbers.
pub proof fn law_white_space_by_number(c: char)
    ensures
        is_space(c) <==> {
            let n = c as u32;
            ||| 0x9 <= n <= 0xd
            ||| n == 0x20 || n == 0x85 || n == 0xa0 || n == 0x1680
            ||| 0x2000 <= n <= 0x200a
            ||| n == 0x2028 || n == 0x2029 || n == 0x202f || n == 0x205f || n == 0x3000
        },
{
}

/// A number is read with or without a plus before it, and nothing else is a number:
/// no sign but that, no character but a digit, and nothing too large.
pub proof fn law_only_numbers_are_read(n: u32, s: Seq<char>)
    ensures
        parse_u32(decimal(n as nat)) == Some(n),
        parse_u32(seq!['+'] + decimal(n as nat)) == Some(n),
        parse_u32(s) matches Some(m) ==> s.len() > 0 && (is_digit(s[0]) || s[0] == '+') && is_digit(
            s.last(),
        ) && (forall|k: int| 1 <= k < s.len() ==> is_digit(#[trigger] s[k])) && m
            == decimal_value(
            if s[0] == '+' {
                s.skip(1)
            } else {
                s
            },
        ),
        parse_u32(Seq::empty()) is None,
{
    law_decimal_reads_back(n as nat);
    let d = decimal(n as nat);
    let signed = seq!['+'] + d;
    assert(signed.skip(1) =~= d);
    assert(signed[0] == '+');
    if parse_u32(s) is Some {
        let digits = if s[0] == '+' {
            s.skip(1)
        } else {
            s
        };
        assert forall|k: int| 1 <= k < s.len() implies is_digit(#[trigger] s[k]) by {
            if s[0] == '+' {
                assert(digits[k - 1] == s[k]);
            } else {
                assert(digits[k] == s[k]);
            }
        }
        if s[0] != '+' {
            assert(is_digit(digits[0]));
        }
    }
}

/// Blanks, tabs and line endings are white space; no visible ASCII character is.
pub proof fn law_white_space_is_invisible(c: char)
    ensures
        c == ' ' || c == '\t' || c == '\n' || c == '\r' ==> is_space(c),
        '!' <= c && c <= '~' ==> !is_space(c),
{
}

/// A text begins with another exactly if it is that text with something behind
/// it.
pub proof fn law_prefix_is_a_front_part(s: Seq<char>, prefix: Seq<char>)
    ensures
        has_prefix(s, prefix) <==> exists|rest: Seq<char>| s == #[trigger] (prefix + rest),
{
    if has_prefix(s, prefix) {
        assert(s =~= prefix + s.skip(prefix.len() as int));
    }
    if exists|rest: Seq<char>| s == #[trigger] (prefix + rest) {
        let rest = choose|rest: Seq<char>| s == #[trigger] (prefix + rest);
        assert((prefix + rest).take(prefix.len() as int) =~= prefix);
    }
}

/// A text ends with another exactly if it is that text with something before it.
pub proof fn law_suffix_is_a_back_part(s: Seq<char>, suffix: Seq<char>)
    ensures
        has_suffix(s, suffix) <==> exists|front: Seq<char>| s == #[trigger] (front + suffix),
{
    if has_suffix(s, suffix) {
        assert(s =~= s.take(s.len() - suffix.len()) + suffix);
    }
    if exists|front: Seq<char>| s == #[trigger] (front + suffix) {
        let front = choose|front: Seq<char>| s == #[trigger] (front + suffix);
        assert((front + suffix).skip(front.len() as int) =~= suffix);
    }
}

/// A pattern is found exactly where the text is something, the pattern and
/// something; and the place is the leftmost of those.
pub proof fn law_find_is_leftmost(s: Seq<char>, pattern: Seq<char>, front: Seq<char>, back: Seq<char>)
    requires
        s == front + pattern + back,
    ensures
        contains(s, pattern),
        find(s, pattern) matches Some(n) && n <= front.len() && s.subrange(
            n as int,
            (n + pattern.len()) as int,
        ) == pattern,
{
    lemma_find(s, pattern);
    assert(s.skip(front.len() as int).take(pattern.len() as int) =~= pattern);
    assert(has_prefix(s.skip(front.len() as int), pattern));
    let n = find(s, pattern)->0;
    assert(s.subrange(n as int, (n + pattern.len()) as int) =~= s.skip(n as int).take(pattern.len() as int));
}

/// A pattern that a text contains stands somewhere in it.
pub proof fn law_contained_stands_somewhere(s: Seq<char>, pattern: Seq<char>)
    ensures
        contains(s, pattern) <==> exists|k: int|
            0 <= k && k + pattern.len() <= s.len() && #[trigger] s.subrange(
                k,
                k + pattern.len(),
            ) == pattern,
{
    lemma_find(s, pattern);
    if contains(s, pattern) {
        let n = find(s, pattern)->0 as int;
        assert(s.subrange(n, n + pattern.len()) =~= s.skip(n).take(pattern.len() as int));
    } else {
        assert forall|k: int| 0 <= k && k + pattern.len() <= s.len() implies #[trigger] s.subrange(
            k,
            k + pattern.len(),
        ) != pattern by {
            assert(s.subrange(k, k + pattern.len()) =~= s.skip(k).take(pattern.len() as int));
            assert(!has_prefix(s.skip(k), pattern));
        }
    }
}

proof fn lemma_trim_end(s: Seq<char>)
    ensures
        trim_end(s).len() <= s.len(),
        s.take(trim_end(s).len() as int) == trim_end(s),
        forall|k: int| trim_end(s).len() <= k < s.len() ==> is_space(#[trigger] s[k]),
        trim_end(s).len() > 0 ==> !is_space(trim_end(s).last()),
    decreases s.len(),
{
    if s.len() > 0 && is_space(s.last()) {
        lemma_trim_end(s.drop_last());
        let n = trim_end(s).len() as int;
        assert(s.take(n) =~= s.drop_last().take(n));
        assert forall|k: int| n <= k < s.len() implies is_space(#[trigger] s[k]) by {
            if k < s.len() - 1 {
                assert(s.drop_last()[k] == s[k]);
            }
        }
    } else {
        assert(s.take(s.len() as int) =~= s);
    }
}

/// Trimming takes white space away at both ends, all of it and nothing else: a
/// text between white space, that begins and ends with none, is what is left.
pub proof fn law_trim_leaves_the_middle(front: Seq<char>, middle: Seq<char>, back: Seq<char>)
    requires
        forall|k: int| 0 <= k < front.len() ==> is_space(#[trigger] front[k]),
        forall|k: int| 0 <= k < back.len() ==> is_space(#[trigger] back[k]),
        middle.len() > 0 && !is_space(middle[0]) && !is_space(middle.last()),
    ensures
        trim(front + middle + back) == middle,
        trim_start(front + middle + back) == middle + back,
{
    let s = middle + back;
    assert(s[0] == middle[0]);
    lemma_trim_start_of_indented(front, s);
    assert(front + middle + back =~= front + s);
    lemma_trim_end(s);
    let n = trim_end(s).len() as int;
    if n < middle.len() {
        assert(is_space(s[middle.len() - 1]));
    } else if n > middle.len() {
        assert(trim_end(s).last() == s[n - 1]);
        assert(s[n - 1] == back[n - 1 - middle.len()]);
    }
    assert(s.take(n) =~= middle);
}

/// A text of nothing but white space is trimmed to nothing, and every text is
/// what trimming leaves between white space.
pub proof fn law_every_text_is_trimmed(s: Seq<char>)
    ensures
        (forall|k: int| 0 <= k < s.len() ==> is_space(#[trigger] s[k])) ==> trim(s).len() == 0,
        trim(s).len() > 0 ==> !is_space(trim(s)[0]) && !is_space(trim(s).last()),
        exists|a: int, b: int|
            0 <= a <= b <= s.len() && trim(s) == #[trigger] s.subrange(a, b) && (forall|k: int|
                0 <= k < a || b <= k < s.len() ==> is_space(#[trigger] s[k])),
{
    lemma_trim_start(s);
    let t = trim_start(s);
    lemma_trim_end(t);
    let a = s.len() - t.len();
    let b = a + trim(s).len();
    assert(trim(s) =~= s.subrange(a, b));
    assert forall|k: int| 0 <= k < a || b <= k < s.len() implies is_space(#[trigger] s[k]) by {
        if k >= b {
            assert(t[k - a] == s[k]);
        }
    }
    if trim(s).len() > 0 {
        assert(trim(s)[0] == t[0]);
    }
    if forall|k: int| 0 <= k < s.len() ==> is_space(#[trigger] s[k]) {
        if trim(s).len() > 0 {
            assert(trim(s)[0] == s[a]);
        }
    }
}

/// A text is read line by line: what stands before the first line feed, then the
/// lines of what stands behind it. A text without one is a single line, and the
/// empty text has none.
pub proof fn law_lines_end_at_line_feeds(line: Seq<char>, rest: Seq<char>)
    requires
        forall|k: int| 0 <= k < line.len() ==> #[trigger] line[k] != '\n',
    ensures
        lines(line + seq!['\n'] + rest) == seq![
            if line.len() > 0 && line.last() == '\r' {
                line.drop_last()
            } else {
                line
            },
        ] + lines(rest),
        lines(line) == if line.len() == 0 {
            Seq::<Seq<char>>::empty()
        } else {
            seq![line]
        },
{
    lemma_lines_front(line, rest);
    lemma_line_len_is(line, line.len());
}

/// Joining puts the separator between neighbours, and nowhere else.
pub proof fn law_join_separates_neighbours(
    first: Seq<char>,
    rest: Seq<Seq<char>>,
    separator: Seq<char>,
)
    ensures
        join(Seq::<Seq<char>>::empty(), separator) == Seq::<char>::empty(),
        join(seq![first], separator) == first,
        rest.len() > 0 ==> join(seq![first] + rest, separator) == first + separator + join(
            rest,
            separator,
        ),
{
    if rest.len() > 0 {
        lemma_join_front(first, rest, separator);
    }
}

/// The pieces of a text, joined by the separator, are the text again, and none of
/// them holds the separator.
pub proof fn law_split_is_undone_by_join(s: Seq<char>, separator: Seq<char>)
    requires
        separator.len() > 0,
    ensures
        join(split(s, separator), separator) == s,
        split(s, separator).len() > 0,
        forall|i: int|
            0 <= i < split(s, separator).len() ==> !contains(
                #[trigger] split(s, separator)[i],
                separator,
            ),
    decreases s.len(),
{
    lemma_find(s, separator);
    match find(s, separator) {
        Some(n) => {
            let n = n as int;
            let head = s.take(n);
            let tail = s.skip(n + separator.len());
            law_split_is_undone_by_join(tail, separator);
            let rest = split(tail, separator);
            assert(split(s, separator) == seq![head] + rest);
            lemma_join_front(head, rest, separator);
            assert(s.skip(n).take(separator.len() as int) == separator);
            assert(s =~= head + separator + tail);
            assert(!contains(head, separator)) by {
                lemma_find(head, separator);
                if contains(head, separator) {
                    let m = find(head, separator)->0 as int;
                    assert(head.skip(m).take(separator.len() as int) =~= s.skip(m).take(
                        separator.len() as int,
                    ));
                    assert(has_prefix(s.skip(m), separator));
                }
            }
            assert forall|i: int| 0 <= i < split(s, separator).len() implies !contains(
                #[trigger] split(s, separator)[i],
                separator,
            ) by {
                if i > 0 {
                    assert(split(s, separator)[i] == rest[i - 1]);
                }
            }
        },
        None => {
            assert(split(s, separator) == seq![s]);
        },
    }
}

/// Two texts are the same but for the case of letters exactly if they are as long
/// as each other and every two characters are equal or the two cases of one ASCII
/// letter.
pub proof fn law_case_is_all_that_is_ignored(a: Seq<char>, b: Seq<char>)
    ensures
        eq_ignore_case(a, b) <==> a.len() == b.len() && forall|i: int|
            0 <= i < a.len() ==> {
                ||| #[trigger] a[i] == b[i]
                ||| 'A' <= a[i] && a[i] <= 'Z' && b[i] as u32 == a[i] as u32 + 32
                ||| 'A' <= b[i] && b[i] <= 'Z' && a[i] as u32 == b[i] as u32 + 32
            },
{
    let x = ascii_lower(a);
    let y = ascii_lower(b);
    if x == y {
        assert(a.len() == x.len() && b.len() == y.len());
        assert forall|i: int| 0 <= i < a.len() implies {
            ||| #[trigger] a[i] == b[i]
            ||| 'A' <= a[i] && a[i] <= 'Z' && b[i] as u32 == a[i] as u32 + 32
            ||| 'A' <= b[i] && b[i] <= 'Z' && a[i] as u32 == b[i] as u32 + 32
        } by {
            assert(x[i] == y[i]);
            assert(x[i] == ascii_lower_char(a[i]));
            assert(y[i] == ascii_lower_char(b[i]));
        }
    }
    if a.len() == b.len() && forall|i: int|
        0 <= i < a.len() ==> {
            ||| #[trigger] a[i] == b[i]
            ||| 'A' <= a[i] && a[i] <= 'Z' && b[i] as u32 == a[i] as u32 + 32
            ||| 'A' <= b[i] && b[i] <= 'Z' && a[i] as u32 == b[i] as u32 + 32
        } {
        assert forall|i: int| 0 <= i < x.len() implies x[i] == y[i] by {
            assert(a[i] == a[i]);
            assert(x[i] == ascii_lower_char(a[i]));
            assert(y[i] == ascii_lower_char(b[i]));
        }
        assert(x =~= y);
    }
}

/// The decimal notation of a number has no leading zero.
pub proof fn law_decimal_has_no_leading_zero(n: nat)
    ensures
        decimal(n)[0] == '0' <==> n == 0,
        decimal(n).len() > 0,
    decreases n,
{
    if n >= 10 {
        law_decimal_has_no_leading_zero(n / 10);
        assert(decimal(n)[0] == decimal(n / 10)[0]);
    } else {
        lemma_digit(n);
        assert(decimal(n)[0] == digit(n));
    }
}

/// The octal notation of a number is one digit for each three bits.
pub proof fn law_octal_has_a_digit_for_three_bits(n: nat)
    ensures
        n < 8 ==> octal(n) == seq![(('0' as u8) + n) as char],
        n >= 8 ==> octal(n) == octal(n / 8) + octal(n % 8),
{
    if n >= 8 {
        assert(octal(n) =~= octal(n / 8) + octal(n % 8));
    }
}

/// The order of texts is that of their first different characters, and a text
/// comes before what continues it.
pub proof fn law_order_is_by_the_first_difference(
    front: Seq<char>,
    a: char,
    b: char,
    x: Seq<char>,
    y: Seq<char>,
)
    requires
        a < b,
    ensures
        text_le(front + seq![a] + x, front + seq![b] + y),
        !text_le(front + seq![b] + y, front + seq![a] + x),
        text_le(front, front + x),
        x.len() > 0 ==> !text_le(front + x, front),
    decreases front.len(),
{
    let p = front + seq![a] + x;
    let q = front + seq![b] + y;
    if front.len() == 0 {
        assert(p[0] == a && q[0] == b);
        if x.len() > 0 {
            assert((front + x).len() > 0);
        }
    } else {
        let rest = front.skip(1);
        law_order_is_by_the_first_difference(rest, a, b, x, y);
        assert(p.skip(1) =~= rest + seq![a] + x);
        assert(q.skip(1) =~= rest + seq![b] + y);
        assert((front + x).skip(1) =~= rest + x);
        assert(p[0] == front[0] && q[0] == front[0] && (front + x)[0] == front[0]);
    }
}

// ---------------------------------------------------------------------------
// Executable counterparts
// ---------------------------------------------------------------------------

/// Whether `c` is Unicode white space.
pub fn space(c: char) -> (r: bool)
    ensures
        r == is_space(c),
{
    ('\u{9}' <= c && c <= '\u{D}') || c == ' ' || c == '\u{85}' || c == '\u{A0}' || c == '\u{1680}'
        || ('\u{2000}' <= c && c <= '\u{200A}') || c == '\u{2028}' || c == '\u{2029}' || c
        == '\u{202F}' || c == '\u{205F}' || c == '\u{3000}'
}

/// The text without white space at either end.
pub fn trimmed(s: &str) -> (r: String)
    ensures
        r@ == trim(s@),
{
    let v = chars_of(s);
    let t = trim_chars(&v);
    string_of(&t)
}

/// The characters without white space at either end.
pub fn trim_chars(v: &Vec<char>) -> (r: Vec<char>)
    ensures
        r@ == trim(v@),
{
    let t = trim_start_chars(v);
    trim_end_chars(&t)
}

/// The characters without leading white space.
pub fn trim_start_chars(v: &Vec<char>) -> (r: Vec<char>)
    ensures
        r@ == trim_start(v@),
{
    let mut i: usize = 0;
    assert(v@.skip(0) == v@);
    while i < v.len() && space(v[i])
        invariant
            i <= v.len(),
            trim_start(v@) == trim_start(v@.skip(i as int)),
        decreases v.len() - i,
    {
        assert(v@.skip(i as int).skip(1) == v@.skip(i as int + 1));
        i += 1;
    }
    assert(v@.skip(i as int) == v@.subrange(i as int, v.len() as int));
    piece(v, i, v.len())
}

/// The characters without trailing white space.
pub fn trim_end_chars(v: &Vec<char>) -> (r: Vec<char>)
    ensures
        r@ == trim_end(v@),
{
    let mut n: usize = v.len();
    assert(v@.take(n as int) == v@);
    while n > 0 && space(v[n - 1])
        invariant
            n <= v.len(),
            trim_end(v@) == trim_end(v@.take(n as int)),
        decreases n,
    {
        assert(v@.take(n as int).drop_last() == v@.take(n as int - 1));
        n -= 1;
    }
    assert(v@.take(n as int) == v@.subrange(0, n as int));
    piece(v, 0, n)
}

/// Whether `pattern` stands in `v` at `at`.
pub fn occurs_at(v: &Vec<char>, pattern: &Vec<char>, at: usize) -> (r: bool)
    requires
        at <= v.len(),
    ensures
        r == has_prefix(v@.skip(at as int), pattern@),
{
    if pattern.len() > v.len() - at {
        return false;
    }
    let mut k: usize = 0;
    while k < pattern.len()
        invariant
            k <= pattern.len(),
            pattern.len() <= v.len() - at,
            v@.skip(at as int).take(k as int) == pattern@.take(k as int),
        decreases pattern.len() - k,
    {
        if v[at + k] != pattern[k] {
            assert(v@.skip(at as int).take(pattern.len() as int)[k as int] != pattern@[k as int]);
            return false;
        }
        k += 1;
    }
    assert(pattern@.take(pattern.len() as int) == pattern@);
    true
}

/// Where `pattern` first occurs in `v` at or after `from`, counted from there.
pub fn find_from(v: &Vec<char>, pattern: &Vec<char>, from: usize) -> (r: Option<usize>)
    requires
        from <= v.len(),
    ensures
        match find(v@.skip(from as int), pattern@) {
            Some(n) => r is Some && r->0 == n && from + n + pattern.len() <= v.len(),
            None => r is None,
        },
{
    let mut i: usize = from;
    while i < v.len()
        invariant
            from <= i <= v.len(),
            match find(v@.skip(i as int), pattern@) {
                Some(n) => find(v@.skip(from as int), pattern@) == Some((n + i - from) as nat),
                None => find(v@.skip(from as int), pattern@) is None,
            },
        decreases v.len() - i,
    {
        if occurs_at(v, pattern, i) {
            return Some(i - from);
        }
        assert(v@.skip(i as int).skip(1) == v@.skip(i as int + 1));
        i += 1;
    }
    if occurs_at(v, pattern, i) {
        Some(i - from)
    } else {
        None
    }
}

/// Whether `pattern` occurs in `s`.
pub fn holds(s: &str, pattern: &str) -> (r: bool)
    ensures
        r == contains(s@, pattern@),
{
    let v = chars_of(s);
    let p = chars_of(pattern);
    assert(v@.skip(0) == v@);
    find_from(&v, &p, 0).is_some()
}

/// Whether `s` begins with `prefix`.
pub fn starts_with(s: &str, prefix: &str) -> (r: bool)
    ensures
        r == has_prefix(s@, prefix@),
{
    let v = chars_of(s);
    let p = chars_of(prefix);
    assert(v@.skip(0) == v@);
    occurs_at(&v, &p, 0)
}

/// Whether `s` ends with `suffix`.
pub fn ends_with(s: &str, suffix: &str) -> (r: bool)
    ensures
        r == has_suffix(s@, suffix@),
{
    let v = chars_of(s);
    let p = chars_of(suffix);
    if p.len() > v.len() {
        return false;
    }
    let at: usize = v.len() - p.len();
    assert(v@.skip(at as int).take(p.len() as int) == v@.skip(at as int));
    occurs_at(&v, &p, at)
}

/// What follows `prefix` in `s`, where `s` begins with it.
pub fn strip_prefix(s: &str, prefix: &str) -> (r: Option<String>)
    ensures
        match r {
            Some(t) => has_prefix(s@, prefix@) && t@ == s@.skip(prefix@.len() as int),
            None => !has_prefix(s@, prefix@),
        },
{
    let v = chars_of(s);
    let p = chars_of(prefix);
    assert(v@.skip(0) == v@);
    if occurs_at(&v, &p, 0) {
        let t = piece(&v, p.len(), v.len());
        assert(t@ == s@.skip(prefix@.len() as int));
        Some(string_of(&t))
    } else {
        None
    }
}

/// The pieces between the occurrences of a non-empty separator.
pub fn split_chars(v: &Vec<char>, separator: &Vec<char>) -> (r: Vec<Vec<char>>)
    requires
        separator.len() > 0,
    ensures
        r@.map_values(|p: Vec<char>| p@) == split(v@, separator@),
        r.len() > 0,
{
    let mut out: Vec<Vec<char>> = Vec::new();
    let mut pos: usize = 0;
    assert(v@.skip(0) == v@);
    assert(out@.map_values(|p: Vec<char>| p@) + split(v@, separator@) == split(v@, separator@));
    loop
        invariant
            separator.len() > 0,
            pos <= v.len(),
            out@.map_values(|p: Vec<char>| p@) + split(v@.skip(pos as int), separator@) == split(
                v@,
                separator@,
            ),
        decreases v.len() - pos,
    {
        let ghost rest = v@.skip(pos as int);
        let ghost before = out@.map_values(|p: Vec<char>| p@);
        match find_from(v, separator, pos) {
            Some(n) => {
                let part = piece(v, pos, pos + n);
                assert(part@ == rest.take(n as int));
                assert(rest.skip((n + separator.len()) as int) == v@.skip(
                    (pos + n + separator.len()) as int,
                ));
                out.push(part);
                assert(out@.map_values(|p: Vec<char>| p@) == before.push(part@));
                assert(before + (seq![part@] + split(
                    v@.skip((pos + n + separator.len()) as int),
                    separator@,
                )) == before.push(part@) + split(
                    v@.skip((pos + n + separator.len()) as int),
                    separator@,
                ));
                pos = pos + n + separator.len();
            },
            None => {
                let part = piece(v, pos, v.len());
                assert(part@ == rest);
                out.push(part);
                assert(out@.map_values(|p: Vec<char>| p@) == before + seq![part@]);
                return out;
            },
        }
    }
}

/// The lines of a text, as characters.
pub fn lines_chars(v: &Vec<char>) -> (r: Vec<Vec<char>>)
    ensures
        r@.map_values(|p: Vec<char>| p@) == lines(v@),
{
    let mut out: Vec<Vec<char>> = Vec::new();
    let mut pos: usize = 0;
    assert(v@.skip(0) == v@);
    assert(out@.map_values(|p: Vec<char>| p@) + lines(v@) == lines(v@));
    while pos < v.len()
        invariant
            pos <= v.len(),
            out@.map_values(|p: Vec<char>| p@) + lines(v@.skip(pos as int)) == lines(v@),
        decreases v.len() - pos,
    {
        let ghost rest = v@.skip(pos as int);
        let ghost before = out@.map_values(|p: Vec<char>| p@);
        let mut end: usize = pos;
        while end < v.len() && v[end] != '\n'
            invariant
                pos <= end <= v.len(),
                line_len(v@.skip(pos as int)) == end - pos + line_len(v@.skip(end as int)),
            decreases v.len() - end,
        {
            assert(v@.skip(end as int).skip(1) == v@.skip(end as int + 1));
            end += 1;
        }
        assert(line_len(rest) == end - pos);
        if end == v.len() {
            let part = piece(v, pos, end);
            assert(part@ == rest);
            out.push(part);
            assert(out@.map_values(|p: Vec<char>| p@) == before + seq![part@]);
            pos = end;
            assert(before + seq![part@] + lines(v@.skip(pos as int)) == before + seq![part@]);
        } else {
            let part = if end > pos && v[end - 1] == '\r' {
                piece(v, pos, end - 1)
            } else {
                piece(v, pos, end)
            };
            assert(part@ == strip_cr(rest.take(end - pos)));
            out.push(part);
            assert(out@.map_values(|p: Vec<char>| p@) == before.push(part@));
            assert(rest.skip(end - pos + 1) == v@.skip(end + 1));
            assert(before + (seq![part@] + lines(v@.skip(end + 1))) == before.push(part@) + lines(
                v@.skip(end + 1),
            ));
            pos = end + 1;
        }
    }
    assert(out@.map_values(|p: Vec<char>| p@) + lines(v@.skip(pos as int)) == out@.map_values(
        |p: Vec<char>| p@,
    ));
    out
}

/// The lines of a text.
pub fn lines_of(s: &str) -> (r: Vec<String>)
    ensures
        texts(r@) == lines(s@),
{
    let v = chars_of(s);
    let ls = lines_chars(&v);
    let mut out: Vec<String> = Vec::new();
    let mut i: usize = 0;
    while i < ls.len()
        invariant
            i <= ls.len(),
            texts(out@) == ls@.map_values(|p: Vec<char>| p@).take(i as int),
        decreases ls.len() - i,
    {
        let line = string_of(&ls[i]);
        let ghost before = texts(out@);
        out.push(line);
        assert(texts(out@) == before.push(line@));
        i += 1;
    }
    out
}

/// The parts one after another, with `separator` between neighbours.
pub fn joined(parts: &Vec<String>, separator: &str) -> (r: String)
    ensures
        r@ == join(texts(parts@), separator@),
{
    let mut s = String::new();
    let mut i: usize = 0;
    while i < parts.len()
        invariant
            i <= parts.len(),
            s@ == join(texts(parts@).take(i as int), separator@),
        decreases parts.len() - i,
    {
        let ghost upto = texts(parts@).take(i as int + 1);
        assert(upto.drop_last() == texts(parts@).take(i as int));
        assert(upto.last() == parts[i as int]@);
        if i > 0 {
            s.append(separator);
        }
        s.append(parts[i].as_str());
        assert(i == 0 ==> s@ == parts[0]@);
        i += 1;
    }
    assert(texts(parts@).take(parts.len() as int) == texts(parts@));
    s
}

/// Whether `c` is an ASCII letter or digit.
pub fn alphanumeric(c: char) -> (r: bool)
    ensures
        r == is_alphanumeric(c),
{
    ('0' <= c && c <= '9') || ('A' <= c && c <= 'Z') || ('a' <= c && c <= 'z')
}

/// An ASCII capital as its small letter; any other character as it is.
pub fn lower_char(c: char) -> (r: char)
    ensures
        r == ascii_lower_char(c),
{
    if 'A' <= c && c <= 'Z' {
        let u: u8 = c as u8;
        (u + 32) as char
    } else {
        c
    }
}

/// The text with its ASCII capitals made small.
pub fn lower(s: &str) -> (r: String)
    ensures
        r@ == ascii_lower(s@),
{
    let v = chars_of(s);
    let mut out = String::new();
    let mut i: usize = 0;
    while i < v.len()
        invariant
            i <= v.len(),
            out@ == ascii_lower(v@).take(i as int),
        decreases v.len() - i,
    {
        out.push(lower_char(v[i]));
        i += 1;
    }
    out
}

/// Equality that takes an ASCII capital and its small letter for the same.
pub fn same_ignore_case(a: &str, b: &str) -> (r: bool)
    ensures
        r == eq_ignore_case(a@, b@),
{
    lower(a) == lower(b)
}

/// Decimal notation.
pub fn decimal_of(n: u64) -> (s: String)
    ensures
        s@ == decimal(n as nat),
    decreases n,
{
    if n < 10 {
        let mut s = String::new();
        let d: u8 = n as u8;
        s.push((48u8 + d) as char);
        assert(s@ == seq![digit(n as nat)]);
        s
    } else {
        let mut s = decimal_of(n / 10);
        let d: u8 = (n % 10) as u8;
        s.push((48u8 + d) as char);
        s
    }
}

/// Octal notation.
pub fn octal_of(n: u64) -> (s: String)
    ensures
        s@ == octal(n as nat),
    decreases n,
{
    if n < 8 {
        let mut s = String::new();
        let d: u8 = n as u8;
        s.push((48u8 + d) as char);
        assert(s@ == seq![digit(n as nat)]);
        s
    } else {
        let mut s = octal_of(n / 8);
        let d: u8 = (n % 8) as u8;
        s.push((48u8 + d) as char);
        s
    }
}

/// What stands before and after the first occurrence of a separator.
pub open spec fn split_once(s: Seq<char>, separator: char) -> Option<(Seq<char>, Seq<char>)> {
    match find(s, seq![separator]) {
        Some(i) => Some((s.take(i as int), s.skip(i as int + 1))),
        None => None,
    }
}

/// A pair of texts with character sequences for strings.
pub open spec fn pair_text(p: Option<(String, String)>) -> Option<(Seq<char>, Seq<char>)> {
    match p {
        Some((a, b)) => Some((a@, b@)),
        None => None,
    }
}

/// What stands before and after the first occurrence of a separator.
pub fn parted(s: &str, separator: char) -> (r: Option<(String, String)>)
    ensures
        pair_text(r) == split_once(s@, separator),
{
    let v = chars_of(s);
    let mut p: Vec<char> = Vec::new();
    p.push(separator);
    assert(p@ =~= seq![separator]);
    assert(v@.skip(0) == v@);
    match find_from(&v, &p, 0) {
        Some(i) => {
            let a = piece(&v, 0, i);
            let b = piece(&v, i + 1, v.len());
            assert(a@ == s@.take(i as int));
            assert(b@ == s@.skip(i as int + 1));
            Some((string_of(&a), string_of(&b)))
        },
        None => None,
    }
}

/// The text without leading white space.
pub fn start_trimmed(s: &str) -> (r: String)
    ensures
        r@ == trim_start(s@),
{
    string_of(&trim_start_chars(&chars_of(s)))
}

/// The text without trailing white space.
pub fn end_trimmed(s: &str) -> (r: String)
    ensures
        r@ == trim_end(s@),
{
    string_of(&trim_end_chars(&chars_of(s)))
}

/// The `u32` that a text denotes.
pub fn u32_of(s: &str) -> (r: Option<u32>)
    ensures
        r == parse_u32(s@),
{
    let v = chars_of(s);
    let start: usize = if v.len() > 0 && v[0] == '+' {
        1
    } else {
        0
    };
    let ghost digits = v@.skip(start as int);
    assert(v@.skip(0) == v@);
    if start == v.len() {
        return None;
    }
    let mut value: u64 = 0;
    let mut i: usize = start;
    let mut over: bool = false;
    while i < v.len()
        invariant
            start <= i <= v.len(),
            digits == v@.skip(start as int),
            digits.len() > 0,
            digits == (if s@.len() > 0 && s@[0] == '+' {
                s@.skip(1)
            } else {
                s@
            }),
            all_digits(digits.take(i - start)),
            !over ==> value == decimal_value(digits.take(i - start)) && value <= u32::MAX,
            over ==> decimal_value(digits.take(i - start)) > u32::MAX,
        decreases v.len() - i,
    {
        let c = v[i];
        let ghost next = digits.take(i - start + 1);
        assert(next.drop_last() == digits.take(i - start));
        assert(digits[i - start] == c);
        if !('0' <= c && c <= '9') {
            assert(!all_digits(digits));
            return None;
        }
        assert(all_digits(next)) by {
            assert forall|k: int| 0 <= k < next.len() implies '0' <= #[trigger] next[k] && next[k]
                <= '9' by {
                if k < i - start {
                    assert(digits.take(i - start)[k] == next[k]);
                }
            }
        }
        if !over {
            value = value * 10 + (c as u64 - 48);
            if value > u32::MAX as u64 {
                over = true;
            }
        }
        i += 1;
    }
    assert(digits.take(digits.len() as int) == digits);
    if over {
        None
    } else {
        Some(value as u32)
    }
}

/// Whether `a` is `b` or comes before it in alphabetical order.
pub fn comes_first(a: &str, b: &str) -> (r: bool)
    ensures
        r == text_le(a@, b@),
{
    let x = chars_of(a);
    let y = chars_of(b);
    let mut i: usize = 0;
    assert(x@.skip(0) == x@ && y@.skip(0) == y@);
    while i < x.len() && i < y.len()
        invariant
            i <= x.len(),
            i <= y.len(),
            x@ == a@,
            y@ == b@,
            text_le(x@, y@) == text_le(x@.skip(i as int), y@.skip(i as int)),
        decreases x.len() - i,
    {
        assert(x@.skip(i as int).skip(1) == x@.skip(i as int + 1));
        assert(y@.skip(i as int).skip(1) == y@.skip(i as int + 1));
        if x[i] != y[i] {
            return x[i] < y[i];
        }
        i += 1;
    }
    i == x.len()
}

proof fn lemma_text_le_total(a: Seq<char>, b: Seq<char>)
    ensures
        text_le(a, b) || text_le(b, a),
    decreases a.len(),
{
    if a.len() > 0 && b.len() > 0 && a[0] == b[0] {
        lemma_text_le_total(a.skip(1), b.skip(1));
    }
}

proof fn lemma_text_le_trans(a: Seq<char>, b: Seq<char>, c: Seq<char>)
    requires
        text_le(a, b),
        text_le(b, c),
    ensures
        text_le(a, c),
    decreases a.len(),
{
    if a.len() > 0 && b.len() > 0 && c.len() > 0 && a[0] == b[0] && b[0] == c[0] {
        lemma_text_le_trans(a.skip(1), b.skip(1), c.skip(1));
    }
}

/// The strings in alphabetical order.
pub fn sorted(v: Vec<String>) -> (r: Vec<String>)
    ensures
        is_sorted(texts(r@)),
        texts(r@).to_multiset() == texts(v@).to_multiset(),
{
    let mut out: Vec<String> = Vec::new();
    let mut i: usize = 0;
    assert(texts(out@) == texts(v@).take(0));
    while i < v.len()
        invariant
            i <= v.len(),
            is_sorted(texts(out@)),
            texts(out@).to_multiset() == texts(v@).take(i as int).to_multiset(),
        decreases v.len() - i,
    {
        let mut at: usize = 0;
        while at < out.len() && comes_first(out[at].as_str(), v[i].as_str())
            invariant
                at <= out.len(),
                i < v.len(),
                forall|k: int| 0 <= k < at ==> text_le(#[trigger] texts(out@)[k], v[i as int]@),
            decreases out.len() - at,
        {
            assert(texts(out@)[at as int] == out[at as int]@);
            at += 1;
        }
        let ghost before = texts(out@);
        let ghost item = v[i as int]@;
        out.insert(at, v[i].clone());
        proof {
            assert(texts(out@) == before.insert(at as int, item));
            before.insert_ensures(at as int, item);
            vstd::seq_lib::to_multiset_insert(before, at as int, item);
            let now = texts(out@);
            if at < before.len() {
                assert(before[at as int] == out[at + 1]@);
                lemma_text_le_total(item, before[at as int]);
            }
            assert forall|a: int, b: int| 0 <= a <= b < now.len() implies text_le(
                #[trigger] now[a],
                #[trigger] now[b],
            ) by {
                let pa = if a <= at { a } else { a - 1 };
                let pb = if b <= at { b } else { b - 1 };
                if a == at && b == at {
                    lemma_text_le_total(item, item);
                } else if b == at {
                    assert(text_le(before[a], item));
                } else if a == at {
                    assert(text_le(before[at as int], before[pb]));
                    lemma_text_le_trans(item, before[at as int], before[pb]);
                } else {
                    assert(text_le(before[pa], before[pb]));
                }
            }
            let upto = texts(v@).take(i as int + 1);
            assert(upto == texts(v@).take(i as int).push(item));
            texts(v@).take(i as int).to_multiset_ensures();
        }
        i += 1;
    }
    assert(texts(v@).take(v.len() as int) == texts(v@));
    out
}

/// What stands before and after the first occurrence of a mark.
pub open spec fn cut(s: Seq<char>, mark: Seq<char>) -> Option<(Seq<char>, Seq<char>)> {
    match find(s, mark) {
        Some(n) => Some((s.take(n as int), s.skip((n + mark.len()) as int))),
        None => None,
    }
}

/// A text is cut at the first occurrence of the mark: the two parts and the mark
/// between them are the text, and no other occurrence stands before. It is cut
/// exactly if it holds the mark.
pub proof fn law_a_text_is_cut_at_the_first_mark(
    s: Seq<char>,
    mark: Seq<char>,
    front: Seq<char>,
    back: Seq<char>,
)
    ensures
        cut(s, mark) is Some <==> contains(s, mark),
        cut(s, mark) matches Some((a, b)) ==> s == a + mark + b,
        s == front + mark + back ==> (cut(s, mark) matches Some((a, b)) && a.len() <= front.len()),
{
    lemma_find(s, mark);
    if s == front + mark + back {
        law_find_is_leftmost(s, mark, front, back);
    }
    if let Some((a, b)) = cut(s, mark) {
        let n = find(s, mark)->0 as int;
        assert(s.skip(n).take(mark.len() as int) =~= s.subrange(n, n + mark.len()));
        assert(s =~= a + s.subrange(n, n + mark.len()) + b);
    }
}

/// What stands before and after the first occurrence of a mark.
pub fn cut_at(s: &str, mark: &str) -> (r: Option<(String, String)>)
    ensures
        pair_text(r) == cut(s@, mark@),
{
    let v = chars_of(s);
    let m = chars_of(mark);
    assert(v@.skip(0) =~= v@);
    match find_from(&v, &m, 0) {
        Some(n) => {
            let before = piece(&v, 0, n);
            let after = piece(&v, n + m.len(), v.len());
            assert(before@ =~= s@.take(n as int));
            assert(after@ =~= s@.skip((n + m@.len()) as int));
            Some((string_of(&before), string_of(&after)))
        },
        None => None,
    }
}

/// The pieces of a text between the separators.
pub fn pieces_of(s: &str, separator: &str) -> (r: Vec<String>)
    requires
        separator@.len() > 0,
    ensures
        texts(r@) == split(s@, separator@),
{
    let parts = split_chars(&chars_of(s), &chars_of(separator));
    let ghost all = parts@.map_values(|p: Vec<char>| p@);
    let mut out: Vec<String> = Vec::new();
    let mut i: usize = 0;
    while i < parts.len()
        invariant
            i <= parts.len(),
            all == parts@.map_values(|p: Vec<char>| p@),
            texts(out@) =~= all.take(i as int),
        decreases parts.len() - i,
    {
        let ghost before = texts(out@);
        out.push(string_of(&parts[i]));
        assert(texts(out@) =~= before.push(all[i as int]));
        i += 1;
    }
    assert(all.take(parts.len() as int) =~= all);
    out
}

/// How far the first word of a text goes.
pub open spec fn word_len(s: Seq<char>) -> nat
    decreases s.len(),
{
    if s.len() == 0 || is_space(s[0]) {
        0
    } else {
        1 + word_len(s.skip(1))
    }
}

/// The words of a text: what stands between its whitespace.
pub open spec fn words(s: Seq<char>) -> Seq<Seq<char>>
    decreases s.len(),
{
    let t = trim_start(s);
    let n = word_len(t);
    if n == 0 || n > t.len() || t.len() > s.len() {
        Seq::empty()
    } else {
        seq![t.take(n as int)] + words(t.skip(n as int))
    }
}

/// The words of a text stand between its white space, in order: the first is what
/// stands before the first white space, and the others are the words of the rest.
pub proof fn law_words_stand_between_white_space(
    indent: Seq<char>,
    word: Seq<char>,
    rest: Seq<char>,
)
    requires
        forall|k: int| 0 <= k < indent.len() ==> is_space(#[trigger] indent[k]),
        word.len() > 0,
        forall|k: int| 0 <= k < word.len() ==> !is_space(#[trigger] word[k]),
        rest.len() == 0 || is_space(rest[0]),
    ensures
        words(indent + word + rest) == seq![word] + words(rest),
        words(indent).len() == 0,
{
    let t = word + rest;
    assert(t[0] == word[0]);
    lemma_trim_start_of_indented(indent, t);
    assert(indent + word + rest =~= indent + t);
    lemma_first_word(word, rest);
    assert(t.take(word.len() as int) =~= word);
    assert(t.skip(word.len() as int) =~= rest);
    lemma_trim_start(indent);
    if trim_start(indent).len() > 0 {
        let k = indent.len() - trim_start(indent).len();
        assert(trim_start(indent)[0] == indent[k]);
    }
}

proof fn lemma_first_word(word: Seq<char>, rest: Seq<char>)
    requires
        forall|k: int| 0 <= k < word.len() ==> !is_space(#[trigger] word[k]),
        rest.len() == 0 || is_space(rest[0]),
    ensures
        word_len(word + rest) == word.len(),
    decreases word.len(),
{
    let s = word + rest;
    if word.len() > 0 {
        let w = word.skip(1);
        assert forall|k: int| 0 <= k < w.len() implies !is_space(#[trigger] w[k]) by {
            assert(w[k] == word[k + 1]);
        }
        lemma_first_word(w, rest);
        assert(s.skip(1) =~= w + rest);
        assert(s[0] == word[0]);
    } else {
        assert(s =~= rest);
    }
}

proof fn lemma_word_len(s: Seq<char>)
    ensures
        word_len(s) <= s.len(),
        s.len() > 0 && !is_space(s[0]) ==> word_len(s) > 0,
    decreases s.len(),
{
    if s.len() > 0 && !is_space(s[0]) {
        lemma_word_len(s.skip(1));
    }
}

proof fn lemma_words_front(s: Seq<char>)
    requires
        s.len() > 0,
        is_space(s[0]),
    ensures
        words(s) == words(s.skip(1)),
{
    lemma_trim_start(s);
    lemma_trim_start(s.skip(1));
    lemma_trim_start_shrinks(s);
    lemma_trim_start_shrinks(s.skip(1));
    assert(trim_start(s) == trim_start(s.skip(1)));
}

proof fn lemma_trim_start_shrinks(s: Seq<char>)
    ensures
        trim_start(s).len() <= s.len(),
    decreases s.len(),
{
    if s.len() > 0 && is_space(s[0]) {
        lemma_trim_start_shrinks(s.skip(1));
    }
}

/// The words of a text.
pub fn words_of(s: &str) -> (r: Vec<String>)
    ensures
        texts(r@) == words(s@),
{
    let v = chars_of(s);
    let mut out: Vec<String> = Vec::new();
    let mut i: usize = 0;
    assert(v@.skip(0) =~= v@);
    assert(texts(out@) + words(v@) =~= words(v@));
    while i < v.len()
        invariant
            i <= v.len(),
            v@ == s@,
            texts(out@) + words(v@.skip(i as int)) == words(s@),
        decreases v.len() - i,
    {
        let ghost rest = v@.skip(i as int);
        assert(rest[0] == v@[i as int]);
        if space(v[i]) {
            proof {
                lemma_words_front(rest);
                assert(rest.skip(1) =~= v@.skip(i as int + 1));
            }
            i += 1;
        } else {
            let start: usize = i;
            let ghost before = texts(out@);
            assert(v@.skip(start as int) =~= rest);
            while i < v.len() && !space(v[i])
                invariant
                    start <= i <= v.len(),
                    v@ == s@,
                    rest == v@.skip(start as int),
                    word_len(rest) == (i - start) + word_len(v@.skip(i as int)),
                decreases v.len() - i,
            {
                assert(v@.skip(i as int)[0] == v@[i as int]);
                assert(v@.skip(i as int).skip(1) =~= v@.skip(i as int + 1));
                i += 1;
            }
            proof {
                lemma_word_len(rest);
                if i < v.len() {
                    assert(v@.skip(i as int)[0] == v@[i as int]);
                }
                assert(word_len(v@.skip(i as int)) == 0);
                assert(trim_start(rest) == rest);
            }
            let word = piece(&v, start, i);
            assert(word@ =~= rest.take(i - start));
            out.push(string_of(&word));
            assert(texts(out@) =~= before.push(rest.take(i - start)));
            assert(rest.skip(i - start) =~= v@.skip(i as int));
            assert(texts(out@) + words(v@.skip(i as int)) =~= before + words(rest));
        }
    }
    assert(v@.skip(v.len() as int) =~= Seq::<char>::empty());
    assert(words(Seq::<char>::empty()) =~= Seq::empty());
    assert(texts(out@) =~= words(s@));
    out
}

/// Yes or no.
pub open spec fn yes_no(b: bool) -> Seq<char> {
    if b {
        "yes"@
    } else {
        "no"@
    }
}

/// Yes or no.
pub fn yes_or_no(b: bool) -> (r: &'static str)
    ensures
        r@ == yes_no(b),
{
    if b {
        "yes"
    } else {
        "no"
    }
}

} // verus!
