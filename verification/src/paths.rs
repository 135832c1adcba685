//! Paths as texts: components, joining and containment.

use crate::text::{chars_of, same, split_chars, string_of};
use vstd::prelude::*;
use vstd::string::*;

verus! {

/// Whether a piece between slashes names something. Nothing, and the current
/// directory, do not.
pub open spec fn names_something(piece: Seq<char>) -> bool {
    piece.len() > 0 && piece != "."@
}

/// The components of an absolute path below the root.
pub open spec fn components(path: Seq<char>) -> Seq<Seq<char>> {
    crate::text::split(path, "/"@).filter(|c: Seq<char>| names_something(c))
}

/// Whether a path starts at the root.
pub open spec fn is_absolute(path: Seq<char>) -> bool {
    crate::text::has_prefix(path, "/"@)
}

/// The path of `name` inside the directory `base`.
pub open spec fn join_path(base: Seq<char>, name: Seq<char>) -> Seq<char> {
    if base.len() == 0 || base.last() == '/' {
        base + name
    } else {
        base + "/"@ + name
    }
}

/// Whether an absolute path is `root` or lies below it.
pub open spec fn is_under(path: Seq<char>, root: Seq<char>) -> bool {
    components(root).len() <= components(path).len() && components(path).take(
        components(root).len() as int,
    ) == components(root)
}

/// The last component of an absolute path; nothing where there is none or it
/// is the parent directory.
pub open spec fn file_name(path: Seq<char>) -> Seq<char> {
    if components(path).len() > 0 && components(path).last() != ".."@ {
        components(path).last()
    } else {
        Seq::empty()
    }
}

/// The components of an absolute path below the root.
pub fn components_of(path: &str) -> (r: Vec<String>)
    ensures
        crate::text::texts(r@) == components(path@),
{
    proof {
        reveal_strlit("/");
        reveal(Seq::filter);
    }
    let v = chars_of(path);
    let slash = chars_of("/");
    let pieces = split_chars(&v, &slash);
    let ghost all = crate::text::split(path@, "/"@);
    let ghost keep = |c: Seq<char>| names_something(c);
    let mut out: Vec<String> = Vec::new();
    let mut i: usize = 0;
    assert(crate::text::texts(out@) == all.take(0).filter(keep));
    while i < pieces.len()
        invariant
            i <= pieces.len(),
            keep == (|c: Seq<char>| names_something(c)),
            all == pieces@.map_values(|p: Vec<char>| p@),
            crate::text::texts(out@) == all.take(i as int).filter(keep),
        decreases pieces.len() - i,
    {
        let ghost before = crate::text::texts(out@);
        let ghost upto = all.take(i as int + 1);
        proof {
            reveal(Seq::filter);
            assert(upto.drop_last() == all.take(i as int));
            assert(upto.last() == pieces[i as int]@);
        }
        let piece = string_of(&pieces[i]);
        if !piece.as_str().is_empty() && !same(piece.as_str(), ".") {
            out.push(piece);
            assert(crate::text::texts(out@) == before.push(piece@));
        }
        i += 1;
    }
    assert(all.take(pieces.len() as int) == all);
    out
}

/// Whether a path starts at the root.
pub fn absolute(path: &str) -> (r: bool)
    ensures
        r == is_absolute(path@),
{
    crate::text::starts_with(path, "/")
}

/// The path of `name` inside the directory `base`.
pub fn joined_path(base: &str, name: &str) -> (r: String)
    ensures
        r@ == join_path(base@, name@),
{
    let v = chars_of(base);
    let mut out = String::from_str(base);
    if !(v.len() == 0 || v[v.len() - 1] == '/') {
        out.append("/");
    }
    out.append(name);
    out
}

/// Whether `prefix` is how `list` begins.
pub fn begins_with(list: &Vec<String>, prefix: &Vec<String>) -> (r: bool)
    ensures
        r == (crate::text::texts(prefix@).len() <= crate::text::texts(list@).len()
            && crate::text::texts(list@).take(prefix.len() as int) == crate::text::texts(prefix@)),
{
    if prefix.len() > list.len() {
        return false;
    }
    let ghost l = crate::text::texts(list@);
    let ghost p = crate::text::texts(prefix@);
    let mut i: usize = 0;
    while i < prefix.len()
        invariant
            i <= prefix.len() <= list.len(),
            l == crate::text::texts(list@),
            p == crate::text::texts(prefix@),
            forall|k: int| 0 <= k < i ==> #[trigger] l[k] == p[k],
        decreases prefix.len() - i,
    {
        assert(l[i as int] == list[i as int]@);
        assert(p[i as int] == prefix[i as int]@);
        if list[i] != prefix[i] {
            assert(l.take(p.len() as int)[i as int] != p[i as int]);
            return false;
        }
        i += 1;
    }
    assert(l.take(p.len() as int) == p);
    true
}

/// Whether an absolute path is `root` or lies below it.
pub fn under(path: &str, root: &str) -> (r: bool)
    ensures
        r == is_under(path@, root@),
{
    let p = components_of(path);
    let q = components_of(root);
    begins_with(&p, &q)
}

/// Whether two absolute paths have the same components.
pub fn same_path(a: &str, b: &str) -> (r: bool)
    ensures
        r == (components(a@) == components(b@)),
{
    let p = components_of(a);
    let q = components_of(b);
    let ghost x = components(a@);
    let ghost y = components(b@);
    assert(x.len() == y.len() ==> x.take(y.len() as int) == x);
    p.len() == q.len() && begins_with(&p, &q)
}

/// The last component of an absolute path.
pub fn file_name_of(path: &str) -> (r: String)
    ensures
        r@ == file_name(path@),
{
    let p = components_of(path);
    if p.len() > 0 {
        assert(components(path@).last() == p[p.len() - 1]@);
        if !same(p[p.len() - 1].as_str(), "..") {
            return p[p.len() - 1].clone();
        }
    }
    String::new()
}

// ---------------------------------------------------------------------------
// An entry of a directory
// ---------------------------------------------------------------------------

proof fn lemma_slash_at(s: Seq<char>, k: int)
    requires
        0 <= k <= s.len(),
    ensures
        crate::text::has_prefix(s.skip(k), "/"@) <==> k < s.len() && s[k] == '/',
{
    reveal_strlit("/");
    if k < s.len() {
        assert(s.skip(k).take(1) =~= seq![s[k]]);
        assert("/"@ =~= seq!['/']);
        if s[k] != '/' {
            assert(s.skip(k).take(1)[0] != "/"@[0]);
        }
    }
}

/// What stands before and after the first slash.
proof fn lemma_first_slash(s: Seq<char>)
    ensures
        match crate::text::find(s, "/"@) {
            Some(n) => {
                &&& n < s.len()
                &&& s[n as int] == '/'
                &&& forall|k: int| 0 <= k < n ==> s[k] != '/'
            },
            None => !s.contains('/'),
        },
{
    reveal_strlit("/");
    crate::text::lemma_find(s, "/"@);
    assert forall|k: int| 0 <= k < s.len() implies (crate::text::has_prefix(
        #[trigger] s.skip(k),
        "/"@,
    ) <==> s[k] == '/') by {
        lemma_slash_at(s, k);
    }
    match crate::text::find(s, "/"@) {
        Some(n) => {
            assert(crate::text::has_prefix(s.skip(n as int), "/"@));
            assert forall|k: int| 0 <= k < n implies s[k] != '/' by {
                assert(!crate::text::has_prefix(s.skip(k), "/"@));
            }
        },
        None => {
            assert forall|k: int| 0 <= k < s.len() implies s[k] != '/' by {
                assert(!crate::text::has_prefix(s.skip(k), "/"@));
            }
        },
    }
}

/// A tail without a slash goes to the last piece.
proof fn lemma_split_tail(s: Seq<char>, tail: Seq<char>)
    requires
        !tail.contains('/'),
    ensures
        crate::text::split(s, "/"@).len() > 0,
        crate::text::split(s + tail, "/"@) == crate::text::split(s, "/"@).drop_last().push(
            crate::text::split(s, "/"@).last() + tail,
        ),
    decreases s.len(),
{
    reveal_strlit("/");
    lemma_first_slash(s);
    lemma_first_slash(s + tail);
    match crate::text::find(s, "/"@) {
        Some(n) => {
            assert((s + tail)[n as int] == '/');
            assert((s + tail).contains('/'));
            let m = crate::text::find(s + tail, "/"@)->0;
            assert(m == n) by {
                if m < n {
                    assert((s + tail)[m as int] == s[m as int]);
                }
            }
            let rest = s.skip(n as int + 1);
            assert((s + tail).skip(n as int + 1) =~= rest + tail);
            assert((s + tail).take(n as int) =~= s.take(n as int));
            lemma_split_tail(rest, tail);
            let pieces = crate::text::split(rest, "/"@);
            assert((seq![s.take(n as int)] + pieces).drop_last() =~= seq![s.take(n as int)]
                + pieces.drop_last());
            assert(crate::text::split(s + tail, "/"@) =~= crate::text::split(
                s,
                "/"@,
            ).drop_last().push(crate::text::split(s, "/"@).last() + tail));
        },
        None => {
            assert(!(s + tail).contains('/')) by {
                assert forall|k: int| 0 <= k < (s + tail).len() implies (s + tail)[k] != '/' by {
                    if k < s.len() {
                        assert(s[k] != '/');
                    } else {
                        assert(tail[k - s.len()] != '/');
                    }
                }
            }
            assert(crate::text::split(s, "/"@) =~= seq![s]);
            assert(crate::text::split(s + tail, "/"@) =~= seq![s + tail]);
            assert(seq![s].drop_last().push(s + tail) =~= seq![s + tail]);
        },
    }
}

/// A slash at the end opens an empty piece.
proof fn lemma_split_slash(s: Seq<char>)
    ensures
        crate::text::split(s + "/"@, "/"@) == crate::text::split(s, "/"@).push(Seq::empty()),
    decreases s.len(),
{
    reveal_strlit("/");
    let t = s + "/"@;
    lemma_first_slash(s);
    lemma_first_slash(t);
    assert(t[s.len() as int] == '/');
    assert(t.contains('/'));
    let m = crate::text::find(t, "/"@)->0;
    match crate::text::find(s, "/"@) {
        Some(n) => {
            assert(t[n as int] == '/');
            assert(m == n) by {
                if m < n {
                    assert(t[m as int] == s[m as int]);
                }
            }
            let rest = s.skip(n as int + 1);
            assert(t.skip(n as int + 1) =~= rest + "/"@);
            assert(t.take(n as int) =~= s.take(n as int));
            lemma_split_slash(rest);
            assert(crate::text::split(t, "/"@) =~= crate::text::split(s, "/"@).push(Seq::empty()));
        },
        None => {
            assert(m == s.len()) by {
                if m < s.len() {
                    assert(s[m as int] == t[m as int]);
                    assert(s.contains('/'));
                }
            }
            assert(t.take(m as int) =~= s);
            assert(t.skip(m as int + 1) =~= Seq::<char>::empty());
            lemma_first_slash(Seq::<char>::empty());
            assert(crate::text::split(Seq::<char>::empty(), "/"@) =~= seq![Seq::<char>::empty()]);
            assert(crate::text::split(t, "/"@) =~= seq![s, Seq::<char>::empty()]);
            assert(crate::text::split(s, "/"@) =~= seq![s]);
            assert(seq![s].push(Seq::<char>::empty()) =~= seq![s, Seq::<char>::empty()]);
        },
    }
}

proof fn lemma_filter_push(v: Seq<Seq<char>>, piece: Seq<char>)
    ensures
        v.push(piece).filter(|c: Seq<char>| names_something(c)) == if names_something(piece) {
            v.filter(|c: Seq<char>| names_something(c)).push(piece)
        } else {
            v.filter(|c: Seq<char>| names_something(c))
        },
{
    reveal(Seq::filter);
    assert(v.push(piece).drop_last() =~= v);
}

/// The path of a plain name inside a directory has exactly the directory's
/// components and the name: it stays inside.
pub proof fn law_plain_name_stays_inside(base: Seq<char>, name: Seq<char>)
    requires
        !name.contains('/'),
        names_something(name),
    ensures
        components(join_path(base, name)) == components(base).push(name),
        is_under(join_path(base, name), base),
{
    reveal_strlit("/");
    let p = |c: Seq<char>| names_something(c);
    if base.len() == 0 || base.last() == '/' {
        lemma_split_tail(base, name);
        let pieces = crate::text::split(base, "/"@);
        assert(pieces.last().len() == 0) by {
            if base.len() > 0 {
                let front = base.drop_last();
                assert(base =~= front + "/"@);
                lemma_split_slash(front);
            } else {
                lemma_first_slash(base);
            }
        }
        assert(pieces.last() + name =~= name);
        assert(pieces.drop_last().push(pieces.last()) =~= pieces);
        lemma_filter_push(pieces.drop_last(), pieces.last());
        lemma_filter_push(pieces.drop_last(), name);
    } else {
        let opened = base + "/"@;
        lemma_split_slash(base);
        lemma_split_tail(opened, name);
        let pieces = crate::text::split(base, "/"@);
        assert(pieces.push(Seq::empty()).drop_last() =~= pieces);
        assert(Seq::<char>::empty() + name =~= name);
        lemma_filter_push(pieces, name);
    }
    assert(components(base).push(name).take(components(base).len() as int) =~= components(base));
}

/// The components of a path are the pieces between its slashes that name something:
/// neither nothing nor the directory itself.
pub proof fn law_components_name_something(path: Seq<char>, i: int)
    ensures
        0 <= i < components(path).len() ==> components(path)[i].len() > 0 && components(path)[i]
            != seq!['.'] && crate::text::split(path, "/"@).contains(components(path)[i]),
        0 <= i < crate::text::split(path, "/"@).len() && crate::text::split(path, "/"@)[i].len() > 0
            && crate::text::split(path, "/"@)[i] != seq!['.'] ==> components(path).contains(
            crate::text::split(path, "/"@)[i],
        ),
{
    reveal_strlit(".");
    assert("."@ =~= seq!['.']);
    let pieces = crate::text::split(path, "/"@);
    let names = |c: Seq<char>| names_something(c);
    if 0 <= i < components(path).len() {
        pieces.lemma_filter_pred(names, i);
        assert(components(path).contains(components(path)[i]));
        pieces.lemma_filter_contains_rev(names, components(path)[i]);
    }
    if 0 <= i < pieces.len() && names_something(pieces[i]) {
        pieces.lemma_filter_contains(names, i);
    }
}

/// A path is made of its parts: an absolute one begins with a slash, and a slash
/// stands between a directory and a name exactly where the directory does not end
/// with one.
pub proof fn law_a_slash_joins_a_name(base: Seq<char>, name: Seq<char>)
    ensures
        is_absolute(base) <==> base.len() > 0 && base[0] == '/',
        base.len() > 0 && base.last() != '/' ==> join_path(base, name) == base.push('/') + name,
        base.len() == 0 || base.last() == '/' ==> join_path(base, name) == base + name,
{
    reveal_strlit("/");
    assert("/"@ =~= seq!['/']);
    if base.len() > 0 {
        assert(base.take(1) =~= seq![base[0]]);
        if is_absolute(base) {
            assert(base.take(1)[0] == '/');
        }
        assert(base + "/"@ + name =~= base.push('/') + name);
    }
}

/// The file name of a path inside a directory is that name, and the path lies
/// under the directory.
pub proof fn law_the_file_name_is_the_last_component(base: Seq<char>, name: Seq<char>)
    requires
        !name.contains('/'),
        names_something(name),
        name != ".."@,
    ensures
        file_name(join_path(base, name)) == name,
{
    law_plain_name_stays_inside(base, name);
}

/// A path lies under itself, and under nothing that has a component which it lacks.
pub proof fn law_containment_is_by_components(path: Seq<char>, root: Seq<char>)
    ensures
        is_under(path, path),
        is_under(path, root) ==> forall|i: int|
            0 <= i < components(root).len() ==> i < components(path).len() && components(path)[i]
                == #[trigger] components(root)[i],
        (components(root).len() <= components(path).len() && forall|i: int|
            0 <= i < components(root).len() ==> components(path)[i] == #[trigger] components(
                root,
            )[i]) ==> is_under(path, root),
{
    let p = components(path);
    let r = components(root);
    assert(p.take(p.len() as int) =~= p);
    if is_under(path, root) {
        assert forall|i: int| 0 <= i < r.len() implies i < p.len() && p[i] == #[trigger] r[i] by {
            assert(p.take(r.len() as int)[i] == p[i]);
        }
    }
    if r.len() <= p.len() && forall|i: int| 0 <= i < r.len() ==> p[i] == #[trigger] r[i] {
        assert(p.take(r.len() as int) =~= r);
    }
}

} // verus!
