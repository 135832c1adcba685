//! The compositor's socket of the person who runs the preview.
//!
//! The preview runs as root, so it takes no path from the environment. The
//! socket is looked for in the runtime directory of the invoking user, and the
//! environment may only choose among the names in there.

use crate::text::{chars_of, decimal_of, ends_with, same, sorted, starts_with, u32_of};
use vstd::prelude::*;
use vstd::string::*;

verus! {

/// The user whose session the window belongs to, `found` being the number of the
/// account behind `doas`.
pub open spec fn session_uid(sudo: Option<Seq<char>>, found: Option<u32>, current: u32) -> u32 {
    match sudo {
        Some(text) if crate::text::parse_u32(text) is Some => crate::text::parse_u32(text)->0,
        _ => match found {
            Some(uid) => uid,
            None => current,
        },
    }
}

/// The user whose session the window belongs to: the one behind `sudo`, else the
/// one behind `doas`, else the current one. `resolve_name` looks an account's
/// number up, and is asked only for the second.
pub fn invoking_uid<F: Fn(&str) -> Option<u32>>(
    sudo_uid: Option<&str>,
    doas_user: Option<&str>,
    resolve_name: F,
    current: u32,
) -> (r: u32)
    requires
        forall|name: &str| #[trigger] resolve_name.requires((name,)),
    ensures
        match (sudo_uid, doas_user) {
            (Some(uid), _) if crate::text::parse_u32(uid@) is Some => r == session_uid(
                Some(uid@),
                None,
                current,
            ),
            (_, Some(name)) => exists|found: Option<u32>| #[trigger]
                resolve_name.ensures((name,), found) && r == session_uid(None, found, current),
            (_, None) => r == session_uid(None, None, current),
        },
{
    if let Some(text) = sudo_uid {
        if let Some(uid) = u32_of(text) {
            return uid;
        }
    }
    if let Some(name) = doas_user {
        let found = resolve_name(name);
        if let Some(uid) = found {
            return uid;
        }
    }
    current
}

/// The runtime directory of a user's session.
pub open spec fn session_dir(uid: u32) -> Seq<char> {
    "/run/user/"@ + crate::text::decimal(uid as nat)
}

/// The runtime directory of a user's session.
pub fn runtime_dir(uid: u32) -> (r: String)
    ensures
        r@ == session_dir(uid),
{
    let mut dir = String::from_str("/run/user/");
    dir.append(decimal_of(uid as u64).as_str());
    dir
}

/// Whether a name is a plain file name, which leads nowhere but into its
/// directory.
pub open spec fn is_bare(name: Seq<char>) -> bool {
    name.len() > 0 && !name.contains('/') && name != "."@ && name != ".."@
}

/// Whether a name is one of a compositor's socket. Lock files are not.
pub open spec fn is_socket_name(name: Seq<char>) -> bool {
    crate::text::has_prefix(name, "wayland-"@) && !crate::text::has_suffix(name, ".lock"@)
}

/// Whether a name is a plain file name.
pub fn is_bare_socket_name(name: &str) -> (r: bool)
    ensures
        r == is_bare(name@),
{
    let v = chars_of(name);
    if v.len() == 0 || same(name, ".") || same(name, "..") {
        return false;
    }
    let mut i: usize = 0;
    while i < v.len()
        invariant
            i <= v.len(),
            v@ == name@,
            forall|k: int| 0 <= k < i ==> #[trigger] v@[k] != '/',
        decreases v.len() - i,
    {
        if v[i] == '/' {
            assert(name@.contains('/'));
            return false;
        }
        i += 1;
    }
    true
}

/// Whether a name is one of a compositor's socket.
pub fn is_wayland_socket_name(name: &str) -> (r: bool)
    ensures
        r == is_socket_name(name@),
{
    starts_with(name, "wayland-") && !ends_with(name, ".lock")
}

/// The socket that the environment chooses: a plain name does, and nothing else.
pub open spec fn chosen_name(display: Option<Seq<char>>) -> Option<Seq<char>> {
    match display {
        Some(name) if is_bare(name) => Some(name),
        _ => None,
    }
}

/// Whether the runtime directory has to be searched.
pub fn needs_scan(display: Option<&str>) -> (r: bool)
    ensures
        r == (chosen_name(
            match display {
                Some(name) => Some(name@),
                None => None,
            },
        ) is None),
{
    match display {
        Some(name) => !is_bare_socket_name(name),
        None => true,
    }
}

fn socket_names(names: &Vec<String>) -> (r: Vec<String>)
    ensures
        crate::text::texts(r@) == crate::text::texts(names@).filter(
            |n: Seq<char>| is_socket_name(n),
        ),
{
    let ghost keep = |n: Seq<char>| is_socket_name(n);
    let ghost all = crate::text::texts(names@);
    let mut kept: Vec<String> = Vec::new();
    let mut i: usize = 0;
    proof {
        reveal(Seq::filter);
    }
    assert(crate::text::texts(kept@) =~= all.take(0).filter(keep));
    while i < names.len()
        invariant
            i <= names.len(),
            keep == (|n: Seq<char>| is_socket_name(n)),
            all == crate::text::texts(names@),
            crate::text::texts(kept@) == all.take(i as int).filter(keep),
        decreases names.len() - i,
    {
        let ghost before = crate::text::texts(kept@);
        proof {
            reveal(Seq::filter);
        }
        assert(all.take(i as int + 1).drop_last() =~= all.take(i as int));
        if is_wayland_socket_name(names[i].as_str()) {
            kept.push(names[i].clone());
            assert(crate::text::texts(kept@) =~= before.push(names[i as int]@));
        }
        i += 1;
    }
    assert(all.take(names.len() as int) =~= all);
    kept
}

/// The names to try in the runtime directory, in order, or why there is none as
/// a chain of sentences, the outermost first. `entries` holds the names in the
/// directory, or why it could not be read; it is looked at only if the
/// environment chooses no socket.
pub fn socket_candidates(
    run_dir: &str,
    display: Option<&str>,
    entries: Result<Vec<String>, String>,
) -> (r: Result<Vec<String>, Vec<String>>)
    ensures
        match chosen_name(
            match display {
                Some(name) => Some(name@),
                None => None,
            },
        ) {
            Some(name) => r matches Ok(names) && crate::text::texts(names@) == seq![name],
            None => match (entries, r) {
                (Err(error), Err(chain)) => crate::text::texts(chain@) == seq![
                    "no session runtime directory at "@ + run_dir@,
                    error@,
                ],
                (Err(_), Ok(_)) => false,
                (Ok(all), Ok(names)) => {
                    &&& names.len() > 0
                    &&& crate::text::is_sorted(crate::text::texts(names@))
                    &&& crate::text::texts(names@).to_multiset() == crate::text::texts(
                        all@,
                    ).filter(|n: Seq<char>| is_socket_name(n)).to_multiset()
                },
                (Ok(all), Err(chain)) => {
                    &&& crate::text::texts(all@).filter(|n: Seq<char>| is_socket_name(n)).len()
                        == 0
                    &&& crate::text::texts(chain@) == seq!["no wayland-* socket in "@ + run_dir@]
                },
            },
        },
{
    if let Some(name) = display {
        if is_bare_socket_name(name) {
            let mut names: Vec<String> = Vec::new();
            names.push(String::from_str(name));
            assert(crate::text::texts(names@) =~= seq![name@]);
            return Ok(names);
        }
    }
    let mut chain: Vec<String> = Vec::new();
    match entries {
        Err(error) => {
            let mut context = String::from_str("no session runtime directory at ");
            context.append(run_dir);
            chain.push(context);
            chain.push(error);
            assert(crate::text::texts(chain@) =~= seq![
                "no session runtime directory at "@ + run_dir@,
                error@,
            ]);
            Err(chain)
        },
        Ok(all) => {
            let kept = socket_names(&all);
            if kept.len() == 0 {
                assert(crate::text::texts(kept@).len() == 0);
                let mut message = String::from_str("no wayland-* socket in ");
                message.append(run_dir);
                chain.push(message);
                assert(crate::text::texts(chain@) =~= seq![
                    "no wayland-* socket in "@ + run_dir@,
                ]);
                return Err(chain);
            }
            let ghost found = crate::text::texts(kept@);
            let names = sorted(kept);
            proof {
                found.to_multiset_ensures();
                crate::text::texts(names@).to_multiset_ensures();
                assert(crate::text::texts(names@).len() == found.len());
            }
            Ok(names)
        },
    }
}

/// What a file's status says, links not followed.
#[derive(Debug, Clone, Copy)]
pub struct SocketStatus {
    pub is_socket: bool,
    pub uid: u32,
}

/// Why the socket may not be connected to, if it may not.
pub open spec fn socket_refusal(path: Seq<char>, status: SocketStatus, uid: u32) -> Option<
    Seq<char>,
> {
    if !status.is_socket {
        Some(path + " is not a socket"@)
    } else if status.uid != uid {
        Some(
            path + " is owned by uid "@ + crate::text::decimal(status.uid as nat)
                + ", not the invoking uid "@ + crate::text::decimal(uid as nat),
        )
    } else {
        None
    }
}

/// Whether the socket may be connected to: it is a socket, not a link, and the
/// invoking user's. Else why not.
pub fn check_owned(path: &str, status: SocketStatus, uid: u32) -> (r: Result<(), String>)
    ensures
        match r {
            Ok(_) => socket_refusal(path@, status, uid) is None,
            Err(message) => socket_refusal(path@, status, uid) == Some(message@),
        },
{
    let mut message = String::from_str(path);
    if !status.is_socket {
        message.append(" is not a socket");
        return Err(message);
    }
    if status.uid != uid {
        message.append(" is owned by uid ");
        message.append(decimal_of(status.uid as u64).as_str());
        message.append(", not the invoking uid ");
        message.append(decimal_of(uid as u64).as_str());
        return Err(message);
    }
    Ok(())
}

/// The sentence under which a missing socket is reported.
pub fn socket_missing(path: &str) -> (r: String)
    ensures
        r@ == "no Wayland socket at "@ + path@,
{
    let mut sentence = String::from_str("no Wayland socket at ");
    sentence.append(path);
    sentence
}

/// The sentence under which a socket that refuses is reported.
pub fn connect_failed(path: &str) -> (r: String)
    ensures
        r@ == "failed to connect to "@ + path@,
{
    let mut sentence = String::from_str("failed to connect to ");
    sentence.append(path);
    sentence
}

// ---------------------------------------------------------------------------
// Laws
// ---------------------------------------------------------------------------

/// Whatever the environment says, the socket that it chooses lies in the runtime
/// directory, one level down.
pub proof fn law_environment_chooses_within_the_directory(
    run_dir: Seq<char>,
    display: Option<Seq<char>>,
)
    ensures
        chosen_name(display) matches Some(name) ==> crate::paths::components(
            crate::paths::join_path(run_dir, name),
        ) == crate::paths::components(run_dir).push(name) && crate::paths::is_under(
            crate::paths::join_path(run_dir, name),
            run_dir,
        ),
{
    if let Some(name) = chosen_name(display) {
        reveal_strlit(".");
        crate::paths::law_plain_name_stays_inside(run_dir, name);
    }
}

/// A plain name from the environment is the one that is tried, as it stands.
pub proof fn law_a_plain_name_is_taken_as_it_is(name: Seq<char>)
    requires
        name.len() > 0,
        forall|k: int| 0 <= k < name.len() ==> #[trigger] name[k] != '/',
        name != seq!['.'],
        name != seq!['.', '.'],
    ensures
        chosen_name(Some(name)) == Some(name),
        chosen_name(None) is None,
{
    reveal_strlit(".");
    reveal_strlit("..");
    assert("."@ =~= seq!['.']);
    assert(".."@ =~= seq!['.', '.']);
}

/// A name is taken for a compositor's socket exactly if `wayland-` begins it and
/// `.lock` does not end it.
pub proof fn law_lock_files_are_no_sockets(rest: Seq<char>)
    ensures
        is_socket_name("wayland-"@ + rest) <==> !(exists|front: Seq<char>|
            "wayland-"@ + rest == #[trigger] (front + ".lock"@)),
        forall|name: Seq<char>| #[trigger]
            is_socket_name(name) ==> exists|tail: Seq<char>| name == #[trigger] ("wayland-"@ + tail),
{
    let name = "wayland-"@ + rest;
    let lock = ".lock"@;
    reveal_strlit("wayland-");
    reveal_strlit(".lock");
    crate::text::law_prefix_is_a_front_part(name, "wayland-"@);
    crate::text::law_suffix_is_a_back_part(name, lock);
    assert(crate::text::has_prefix(name, "wayland-"@)) by {
        assert(name.take("wayland-"@.len() as int) =~= "wayland-"@);
    }
    if crate::text::has_suffix(name, lock) {
        let front = name.take(name.len() - lock.len());
        assert(name =~= front + lock);
    }
    if exists|front: Seq<char>| name == #[trigger] (front + lock) {
        let front = choose|front: Seq<char>| name == #[trigger] (front + lock);
        assert(name.skip(name.len() - lock.len()) =~= lock);
        assert(crate::text::has_suffix(name, lock));
    }
    assert forall|n: Seq<char>| #[trigger] is_socket_name(n) implies exists|tail: Seq<char>|
        n == #[trigger] ("wayland-"@ + tail) by {
        let tail = n.skip("wayland-"@.len() as int);
        assert(n =~= "wayland-"@ + tail);
    }
}

/// The session is that of the user behind `sudo` where there is one, then that of
/// the user behind `doas`, and the current one only without either.
pub proof fn law_the_session_is_the_callers(
    sudo: u32,
    text: Seq<char>,
    found: Option<u32>,
    current: u32,
)
    ensures
        session_uid(Some(crate::text::decimal(sudo as nat)), found, current) == sudo,
        crate::text::parse_u32(text) is None ==> session_uid(Some(text), found, current)
            == session_uid(None, found, current),
        found matches Some(uid) ==> session_uid(None, found, current) == uid,
        session_uid(None, None, current) == current,
{
    crate::text::law_decimal_reads_back(sudo as nat);
}

/// Each user has a runtime directory of their own.
pub proof fn law_runtime_directories_are_told_apart(a: u32, b: u32)
    requires
        a != b,
    ensures
        session_dir(a) != session_dir(b),
        crate::text::has_prefix(session_dir(a), "/run/user/"@),
{
    let front = "/run/user/"@;
    reveal_strlit("/run/user/");
    crate::text::law_decimal_reads_back(a as nat);
    crate::text::law_decimal_reads_back(b as nat);
    assert(session_dir(a).take(front.len() as int) =~= front);
    if session_dir(a) == session_dir(b) {
        assert(session_dir(a).skip(front.len() as int) =~= crate::text::decimal(a as nat));
        assert(session_dir(b).skip(front.len() as int) =~= crate::text::decimal(b as nat));
    }
}

/// A connection is made exactly to a socket of the invoking user, and a refusal
/// names the path that was refused.
pub proof fn law_only_an_own_socket_is_connected_to(
    path: Seq<char>,
    status: SocketStatus,
    uid: u32,
)
    ensures
        socket_refusal(path, status, uid) is None <==> status.is_socket && status.uid == uid,
        socket_refusal(path, status, uid) matches Some(message) ==> message.len() > path.len()
            && message.take(path.len() as int) == path,
{
    reveal_strlit(" is not a socket");
    reveal_strlit(" is owned by uid ");
    if let Some(message) = socket_refusal(path, status, uid) {
        assert(message.take(path.len() as int) =~= path);
    }
}

/// A value of the environment that holds a slash chooses nothing.
pub proof fn law_paths_from_the_environment_are_ignored(display: Seq<char>)
    requires
        display.contains('/'),
    ensures
        chosen_name(Some(display)) is None,
{
}

} // verus!
